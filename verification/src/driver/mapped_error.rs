//! Failures while checking or changing a mapped replicated-volume device.

use vstd::prelude::*;

use crate::text::{decimal_text, push_decimal, push_text};

verus! {

/// Text that formatting an optional text for debugging gives.
pub uninterp spec fn debug_text(value: Option<Seq<char>>) -> Seq<char>;

/// Model of an optional text.
pub open spec fn optional_text(value: Option<String>) -> Option<Seq<char>> {
    match value {
        Some(text) => Some(text@),
        None => None,
    }
}

/// Formats an optional string with its standard `Debug` form: `None`, or `Some` with the
/// quoted and escaped string. How characters are escaped is not stated.
#[verifier::external_body]
fn debug_string(value: &Option<String>) -> (out: String)
    ensures
        out@ == debug_text(optional_text(*value)),
{
    format!("{:?}", value)
}

/// Text that some path bytes are shown as.
pub uninterp spec fn shown_text(bytes: Seq<u8>) -> Seq<char>;

/// Shows path bytes with `String::from_utf8_lossy`, which puts a replacement character for
/// what is no text. Where it does so is not stated.
#[verifier::external_body]
fn show_bytes(bytes: &[u8]) -> (out: String)
    ensures
        out@ == shown_text(bytes@),
{
    String::from_utf8_lossy(bytes).into_owned()
}

/// Failure while checking or changing a mapped replicated-volume device.
#[derive(Debug, PartialEq, Eq)]
pub enum MappedVolumeError {
    /// This operating system cannot provide Linux device-mapper volumes.
    UnsupportedPlatform,

    /// The volume cannot be expressed in 512-byte device-mapper sectors.
    CapacityNotSectorAligned {
        /// Invalid logical capacity from the descriptor.
        capacity_bytes: u64,
    },

    /// A deterministic identity exceeded a kernel limit or could not be parsed.
    InvalidIdentity {
        /// Precise identity failure.
        reason: String,
    },

    /// A required host facility is unavailable.
    Unavailable {
        /// Precise missing facility.
        reason: String,
    },

    /// A kernel device-mapper operation failed.
    Kernel {
        /// Short operation name.
        operation: String,
        /// Error text of the operation.
        message: String,
    },

    /// A block-device metadata check failed.
    BlockDevice {
        /// Path being checked.
        path: Vec<u8>,
        /// Precise metadata failure.
        message: String,
    },

    /// The expected mapping name is owned by another application.
    ForeignName {
        /// Deterministic name that collided.
        name: String,
        /// Foreign or missing UUID.
        actual_uuid: Option<String>,
    },

    /// One Mantissa UUID exists under a non-deterministic name.
    WrongName {
        /// Deterministic UUID.
        uuid: String,
        /// Actual kernel name.
        actual_name: String,
    },

    /// More than one mapping claims the same Mantissa UUID.
    DuplicateUuid {
        /// Duplicated deterministic UUID.
        uuid: String,
        /// Number of mappings using it.
        count: usize,
    },

    /// A Mantissa-owned mapping does not have its required state or table.
    WrongLayout {
        /// Kernel mapping name.
        name: String,
        /// Precise mismatch.
        reason: String,
    },
}

/// Model of a failure.
pub enum MappedErrorView {
    UnsupportedPlatform,
    CapacityNotSectorAligned { capacity_bytes: u64 },
    InvalidIdentity { reason: Seq<char> },
    Unavailable { reason: Seq<char> },
    Kernel { operation: Seq<char>, message: Seq<char> },
    BlockDevice { path: Seq<u8>, message: Seq<char> },
    ForeignName { name: Seq<char>, actual_uuid: Option<Seq<char>> },
    WrongName { uuid: Seq<char>, actual_name: Seq<char> },
    DuplicateUuid { uuid: Seq<char>, count: usize },
    WrongLayout { name: Seq<char>, reason: Seq<char> },
}

impl View for MappedVolumeError {
    type V = MappedErrorView;

    open spec fn view(&self) -> MappedErrorView {
        match self {
            MappedVolumeError::UnsupportedPlatform => MappedErrorView::UnsupportedPlatform,
            MappedVolumeError::CapacityNotSectorAligned { capacity_bytes } =>
                MappedErrorView::CapacityNotSectorAligned { capacity_bytes: *capacity_bytes },
            MappedVolumeError::InvalidIdentity { reason } => MappedErrorView::InvalidIdentity {
                reason: reason@,
            },
            MappedVolumeError::Unavailable { reason } => MappedErrorView::Unavailable {
                reason: reason@,
            },
            MappedVolumeError::Kernel { operation, message } => MappedErrorView::Kernel {
                operation: operation@,
                message: message@,
            },
            MappedVolumeError::BlockDevice { path, message } => MappedErrorView::BlockDevice {
                path: path@,
                message: message@,
            },
            MappedVolumeError::ForeignName { name, actual_uuid } => MappedErrorView::ForeignName {
                name: name@,
                actual_uuid: optional_text(*actual_uuid),
            },
            MappedVolumeError::WrongName { uuid, actual_name } => MappedErrorView::WrongName {
                uuid: uuid@,
                actual_name: actual_name@,
            },
            MappedVolumeError::DuplicateUuid { uuid, count } => MappedErrorView::DuplicateUuid {
                uuid: uuid@,
                count: *count,
            },
            MappedVolumeError::WrongLayout { name, reason } => MappedErrorView::WrongLayout {
                name: name@,
                reason: reason@,
            },
        }
    }
}

impl MappedErrorView {
    /// Text of the failure.
    pub open spec fn text(self) -> Seq<char> {
        match self {
            MappedErrorView::UnsupportedPlatform =>
                "mapped replicated volumes are unsupported on this operating system"@,
            MappedErrorView::CapacityNotSectorAligned { capacity_bytes } =>
                "mapped volume capacity "@ + decimal_text(capacity_bytes as nat)
                    + " is not aligned to a 512-byte sector"@,
            MappedErrorView::InvalidIdentity { reason } => "invalid mapped volume identity: "@
                + reason,
            MappedErrorView::Unavailable { reason } => "device-mapper is unavailable: "@ + reason,
            MappedErrorView::Kernel { operation, message } => "device-mapper "@ + operation
                + " failed: "@ + message,
            MappedErrorView::BlockDevice { path, message } => "check block device '"@ + shown_text(
                path,
            ) + "': "@ + message,
            MappedErrorView::ForeignName { name, actual_uuid } => "mapped volume name '"@ + name
                + "' belongs to foreign device-mapper UUID "@ + debug_text(actual_uuid),
            MappedErrorView::WrongName { uuid, actual_name } => "mapped volume UUID '"@ + uuid
                + "' exists under unexpected name '"@ + actual_name + "'"@,
            MappedErrorView::DuplicateUuid { uuid, count } => "mapped volume UUID '"@ + uuid
                + "' is used by "@ + decimal_text(count as nat) + " kernel mappings"@,
            MappedErrorView::WrongLayout { name, reason } => "mapped volume '"@ + name
                + "' is not exact: "@ + reason,
        }
    }
}

impl MappedVolumeError {
    /// Returns the text of the failure.
    pub fn message(&self) -> (out: String)
        ensures
            out@ == self@.text(),
    {
        let mut out = String::new();
        match self {
            MappedVolumeError::UnsupportedPlatform => {
                push_text(
                    &mut out,
                    "mapped replicated volumes are unsupported on this operating system",
                );
            },
            MappedVolumeError::CapacityNotSectorAligned { capacity_bytes } => {
                push_text(&mut out, "mapped volume capacity ");
                push_decimal(&mut out, *capacity_bytes);
                push_text(&mut out, " is not aligned to a 512-byte sector");
            },
            MappedVolumeError::InvalidIdentity { reason } => {
                push_text(&mut out, "invalid mapped volume identity: ");
                push_text(&mut out, reason.as_str());
            },
            MappedVolumeError::Unavailable { reason } => {
                push_text(&mut out, "device-mapper is unavailable: ");
                push_text(&mut out, reason.as_str());
            },
            MappedVolumeError::Kernel { operation, message } => {
                push_text(&mut out, "device-mapper ");
                push_text(&mut out, operation.as_str());
                push_text(&mut out, " failed: ");
                push_text(&mut out, message.as_str());
            },
            MappedVolumeError::BlockDevice { path, message } => {
                push_text(&mut out, "check block device '");
                push_text(&mut out, show_bytes(path).as_str());
                push_text(&mut out, "': ");
                push_text(&mut out, message.as_str());
            },
            MappedVolumeError::ForeignName { name, actual_uuid } => {
                push_text(&mut out, "mapped volume name '");
                push_text(&mut out, name.as_str());
                push_text(&mut out, "' belongs to foreign device-mapper UUID ");
                push_text(&mut out, debug_string(actual_uuid).as_str());
            },
            MappedVolumeError::WrongName { uuid, actual_name } => {
                push_text(&mut out, "mapped volume UUID '");
                push_text(&mut out, uuid.as_str());
                push_text(&mut out, "' exists under unexpected name '");
                push_text(&mut out, actual_name.as_str());
                push_text(&mut out, "'");
            },
            MappedVolumeError::DuplicateUuid { uuid, count } => {
                push_text(&mut out, "mapped volume UUID '");
                push_text(&mut out, uuid.as_str());
                push_text(&mut out, "' is used by ");
                push_decimal(&mut out, *count as u64);
                push_text(&mut out, " kernel mappings");
            },
            MappedVolumeError::WrongLayout { name, reason } => {
                push_text(&mut out, "mapped volume '");
                push_text(&mut out, name.as_str());
                push_text(&mut out, "' is not exact: ");
                push_text(&mut out, reason.as_str());
            },
        }
        proof { assert(out@ =~= self@.text()); }
        out
    }
}

/// Copies a text.
pub fn copy_text(text: &str) -> (out: String)
    ensures
        out@ == text@,
{
    let mut out = String::new();
    push_text(&mut out, text);
    proof { assert(out@ =~= text@); }
    out
}

/// Copies an optional text.
pub fn copy_optional(text: &Option<String>) -> (out: Option<String>)
    ensures
        optional_text(out) == optional_text(*text),
{
    match text {
        Some(text) => Some(copy_text(text.as_str())),
        None => None,
    }
}

/// Reports a wrong layout.
pub fn wrong_layout(name: &str, reason: &str) -> (out: MappedVolumeError)
    ensures
        out@ == (MappedErrorView::WrongLayout { name: name@, reason: reason@ }),
{
    MappedVolumeError::WrongLayout { name: copy_text(name), reason: copy_text(reason) }
}

} // verus!
