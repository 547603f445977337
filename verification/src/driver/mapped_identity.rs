//! Deterministic identity of a mapped volume in the kernel.

use vstd::prelude::*;
use vstd::utf8::{encode_utf8, is_ascii_chars};

use super::mapped_error::{copy_text, MappedErrorView, MappedVolumeError};
use crate::catalog::model::ReplicaKey;
use crate::text::{
    chars_of, decimal_text, hex_number, hex_text, law_decimal_round_trip, law_hex_number_round_trip,
    lemma_decimal_text, lemma_hex_width, parse_decimal, push_decimal, push_text, same_text,
    string_of,
};
use crate::volume::identity::{VolumeGeneration, VolumeId, VolumeNodeId};

verus! {

/// Longest kernel name.
pub const DEVICE_MAPPER_NAME_MAX_BYTES: usize = 127;

/// Longest kernel UUID.
pub const DEVICE_MAPPER_UUID_MAX_BYTES: usize = 128;

/// Linux major and minor numbers identifying one block device.
#[derive(Clone, Copy, Debug, PartialEq, Eq, PartialOrd, Ord, Structural)]
pub struct BlockDeviceNumber {
    pub major: u32,
    pub minor: u32,
}

impl BlockDeviceNumber {
    /// The kernel's ordinary major:minor representation.
    pub open spec fn text(self) -> Seq<char> {
        decimal_text(self.major as nat) + seq![':'] + decimal_text(self.minor as nat)
    }

    /// Creates a device number read from checked kernel metadata.
    #[must_use]
    pub fn new(major: u32, minor: u32) -> (out: Self)
        ensures
            out.major == major,
            out.minor == minor,
    {
        BlockDeviceNumber { major, minor }
    }

    /// Returns the Linux major number.
    #[must_use]
    pub fn major(self) -> (out: u32)
        ensures
            out == self.major,
    {
        self.major
    }

    /// Returns the Linux minor number.
    #[must_use]
    pub fn minor(self) -> (out: u32)
        ensures
            out == self.minor,
    {
        self.minor
    }

    /// Returns the kernel's ordinary major:minor representation.
    pub fn to_text(self) -> (out: String)
        ensures
            out@ == self.text(),
    {
        let mut out = String::new();
        push_decimal(&mut out, self.major as u64);
        out.push(':');
        push_decimal(&mut out, self.minor as u64);
        proof { assert(out@ =~= self.text()); }
        out
    }
}

/// Formats a `uuid::Uuid` made of the given number with its `simple` form: thirty-two
/// lowercase hexadecimal digits, most significant first.
#[verifier::external_body]
fn simple_text(value: u128) -> (out: String)
    ensures
        out@ == hex_text(value as nat, 32),
{
    uuid::Uuid::from_u128(value).simple().to_string()
}

/// Parses thirty-two ASCII characters with `uuid::Uuid::parse_str`: the characters must be
/// hexadecimal digits of either case, and the result is the number that they write.
#[verifier::external_body]
fn parse_simple(text: &str) -> (out: Option<u128>)
    requires
        text@.len() == 32,
        is_ascii_chars(text@),
    ensures
        match out {
            Some(value) => hex_number(text@) == Some(value as nat),
            None => hex_number(text@) is None,
        },
{
    match uuid::Uuid::parse_str(text) {
        Ok(uuid) => Some(uuid.as_u128()),
        Err(_) => None,
    }
}

/// Kernel name of a mapped volume.
pub open spec fn name_text(node_id: VolumeNodeId, key: ReplicaKey) -> Seq<char> {
    "mantissa-rv-"@ + hex_text(node_id.value() as nat, 32) + "-"@ + hex_text(
        key.volume().value() as nat,
        32,
    ) + "-g"@ + decimal_text(key.generation_of().value() as nat)
}

/// Kernel UUID of a mapped volume.
pub open spec fn uuid_text(node_id: VolumeNodeId, key: ReplicaKey) -> Seq<char> {
    "MANTISSA-RV-"@ + hex_text(node_id.value() as nat, 32) + "-V"@ + hex_text(
        key.volume().value() as nat,
        32,
    ) + "-G"@ + decimal_text(key.generation_of().value() as nat)
}

/// Path of a mapped volume.
pub open spec fn path_text(node_id: VolumeNodeId, key: ReplicaKey) -> Seq<char> {
    "/dev/mapper/"@ + name_text(node_id, key)
}

/// Kernel identifier whose length is limited.
#[derive(Clone, Copy, Debug, PartialEq, Eq, Structural)]
pub enum IdentityField {
    /// The mapping name.
    Name,

    /// The mapping UUID.
    Uuid,
}

impl IdentityField {
    /// Plain name of the identifier.
    pub open spec fn text(self) -> Seq<char> {
        match self {
            IdentityField::Name => "name"@,
            IdentityField::Uuid => "UUID"@,
        }
    }

    /// Returns the plain name of the identifier.
    pub fn name(self) -> (out: &'static str)
        ensures
            out@ == self.text(),
    {
        match self {
            IdentityField::Name => "name",
            IdentityField::Uuid => "UUID",
        }
    }
}

/// Why the kernel identifier arrays cannot store a value.
pub open spec fn identity_value_error(
    field: IdentityField,
    value: Seq<char>,
    maximum_bytes: usize,
) -> Option<MappedErrorView> {
    if value.len() == 0 || !is_ascii_chars(value) || encode_utf8(value).len() > maximum_bytes {
        Some(
            MappedErrorView::InvalidIdentity {
                reason: "device-mapper "@ + field.text() + " has "@ + decimal_text(
                    encode_utf8(value).len(),
                ) + " bytes; expected 1..="@ + decimal_text(maximum_bytes as nat)
                    + " ASCII bytes"@,
            },
        )
    } else {
        None
    }
}

/// Rejects values the kernel identifier arrays cannot store exactly.
pub fn validate_identity_value(field: IdentityField, value: &str, maximum_bytes: usize) -> (out:
    Result<(), MappedVolumeError>)
    ensures
        match out {
            Ok(()) => identity_value_error(field, value@, maximum_bytes) is None,
            Err(error) => identity_value_error(field, value@, maximum_bytes) == Some(error@),
        },
{
    let bytes = value.as_bytes();
    let length: usize = bytes.len();
    let is_empty = chars_of(value).len() == 0;
    if is_empty || !value.is_ascii() || length > maximum_bytes {
        let mut reason = String::new();
        push_text(&mut reason, "device-mapper ");
        push_text(&mut reason, field.name());
        push_text(&mut reason, " has ");
        push_decimal(&mut reason, length as u64);
        push_text(&mut reason, " bytes; expected 1..=");
        push_decimal(&mut reason, maximum_bytes as u64);
        push_text(&mut reason, " ASCII bytes");
        proof {
            assert(reason@ =~= "device-mapper "@ + field.text() + " has "@ + decimal_text(
                encode_utf8(value@).len(),
            ) + " bytes; expected 1..="@ + decimal_text(maximum_bytes as nat) + " ASCII bytes"@);
        }
        return Err(MappedVolumeError::InvalidIdentity { reason });
    }
    Ok(())
}

/// Deterministic device-mapper identity scoped to one local volume runtime.
#[derive(Debug, PartialEq, Eq)]
pub struct MappedVolumeIdentity {
    node_id: VolumeNodeId,
    key: ReplicaKey,
    name: String,
    uuid: String,
    path: String,
}

impl MappedVolumeIdentity {
    #[verifier::type_invariant]
    spec fn is_derived(self) -> bool {
        &&& self.name@ == name_text(self.node_id, self.key)
        &&& self.uuid@ == uuid_text(self.node_id, self.key)
        &&& self.path@ == path_text(self.node_id, self.key)
    }

    /// Local volume node.
    pub closed spec fn node(self) -> VolumeNodeId {
        self.node_id
    }

    /// Volume generation.
    pub closed spec fn volume_key(self) -> ReplicaKey {
        self.key
    }

    /// Builds and validates the exact kernel name, UUID, and path.
    pub fn new(node_id: VolumeNodeId, key: ReplicaKey) -> (out: Result<Self, MappedVolumeError>)
        ensures
            out matches Ok(identity) && identity.node() == node_id && identity.volume_key() == key,
    {
        let node = simple_text(node_id.as_u128());
        let volume = simple_text(key.volume_id().as_u128());
        let generation: u64 = key.generation().get();
        let mut name = copy_text("mantissa-rv-");
        push_text(&mut name, node.as_str());
        push_text(&mut name, "-");
        push_text(&mut name, volume.as_str());
        push_text(&mut name, "-g");
        push_decimal(&mut name, generation);
        let mut uuid = copy_text("MANTISSA-RV-");
        push_text(&mut uuid, node.as_str());
        push_text(&mut uuid, "-V");
        push_text(&mut uuid, volume.as_str());
        push_text(&mut uuid, "-G");
        push_decimal(&mut uuid, generation);
        proof {
            assert(name@ =~= name_text(node_id, key));
            assert(uuid@ =~= uuid_text(node_id, key));
            lemma_identity_fits(node_id, key);
        }
        if let Err(error) = validate_identity_value(
            IdentityField::Name,
            name.as_str(),
            DEVICE_MAPPER_NAME_MAX_BYTES,
        ) {
            return Err(error);
        }
        if let Err(error) = validate_identity_value(
            IdentityField::Uuid,
            uuid.as_str(),
            DEVICE_MAPPER_UUID_MAX_BYTES,
        ) {
            return Err(error);
        }
        let mut path = copy_text("/dev/mapper/");
        push_text(&mut path, name.as_str());
        proof { assert(path@ =~= path_text(node_id, key)); }
        Ok(MappedVolumeIdentity { node_id, key, name, uuid, path })
    }

    /// Returns the local volume node.
    pub fn node_id(&self) -> (out: VolumeNodeId)
        ensures
            out == self.node(),
    {
        self.node_id
    }

    /// Returns the volume generation.
    pub fn key(&self) -> (out: ReplicaKey)
        ensures
            out == self.volume_key(),
    {
        self.key
    }

    /// Returns the kernel name.
    pub fn name(&self) -> (out: &str)
        ensures
            out@ == name_text(self.node(), self.volume_key()),
    {
        proof { use_type_invariant(self); }
        self.name.as_str()
    }

    /// Returns the kernel UUID.
    pub fn uuid(&self) -> (out: &str)
        ensures
            out@ == uuid_text(self.node(), self.volume_key()),
    {
        proof { use_type_invariant(self); }
        self.uuid.as_str()
    }

    /// Returns the path of the mapped device.
    pub fn path(&self) -> (out: &str)
        ensures
            out@ == path_text(self.node(), self.volume_key()),
    {
        proof { use_type_invariant(self); }
        self.path.as_str()
    }

    /// Returns whether both identities name the same mapping.
    pub fn same(&self, other: &Self) -> (out: bool)
        ensures
            out == (self.node() == other.node() && self.volume_key() == other.volume_key()),
    {
        self.node_id == other.node_id && self.key == other.key
    }

    /// Parses only the exact UUID namespace emitted for mapped volumes.
    pub fn from_uuid(value: &str) -> (out: Option<Self>)
        ensures
            match out {
                Some(identity) => is_owned_uuid(value@, identity.node(), identity.volume_key()),
                None => forall|node_id: VolumeNodeId, key: ReplicaKey|
                    !is_owned_uuid(value@, node_id, key),
            },
    {
        let ghost parsed = parsed_uuid(value@);
        proof {
            assert forall|node_id: VolumeNodeId, key: ReplicaKey| is_owned_uuid(
                value@,
                node_id,
                key,
            ) implies parsed == Some(
                (node_id.value(), key.volume().value(), key.generation_of().value()),
            ) && is_ascii_chars(value@) by {
                lemma_parsed_uuid(node_id, key);
            }
        }
        let chars = chars_of(value);
        if !value.is_ascii() || chars.len() < 81 {
            return None;
        }
        let node_text = string_of(vstd::slice::slice_subrange(&chars, 12, 44));
        let volume_text = string_of(vstd::slice::slice_subrange(&chars, 46, 78));
        let length: usize = chars.len();
        let digits = vstd::slice::slice_subrange(&chars, 80, length);
        proof {
            assert(node_text@ =~= value@.subrange(12, 44));
            assert(volume_text@ =~= value@.subrange(46, 78));
            assert(digits@ =~= value@.skip(80));
        }
        let node_value: u128 = match parse_simple(node_text.as_str()) {
            Some(value) => value,
            None => {
                return None;
            },
        };
        let volume_value: u128 = match parse_simple(volume_text.as_str()) {
            Some(value) => value,
            None => {
                return None;
            },
        };
        let generation_value: u64 = match parse_decimal(digits) {
            Some(value) => value,
            None => {
                return None;
            },
        };
        let node_id = match VolumeNodeId::new(node_value) {
            Ok(node_id) => node_id,
            Err(_) => {
                return None;
            },
        };
        let volume_id = match VolumeId::new(volume_value) {
            Ok(volume_id) => volume_id,
            Err(_) => {
                return None;
            },
        };
        let generation = match VolumeGeneration::new(generation_value) {
            Ok(generation) => generation,
            Err(_) => {
                return None;
            },
        };
        let key = ReplicaKey::new(volume_id, generation);
        let identity = match MappedVolumeIdentity::new(node_id, key) {
            Ok(identity) => identity,
            Err(_) => {
                return None;
            },
        };
        if same_text(identity.uuid(), value) {
            Some(identity)
        } else {
            proof {
                assert forall|other: VolumeNodeId, other_key: ReplicaKey| !is_owned_uuid(
                    value@,
                    other,
                    other_key,
                ) by {
                    if is_owned_uuid(value@, other, other_key) {
                        VolumeNodeId::lemma_value(other, node_id);
                        VolumeId::lemma_made(volume_value, other_key.volume());
                        VolumeId::lemma_made(volume_value, volume_id);
                        VolumeGeneration::lemma_value(other_key.generation_of(), generation);
                        ReplicaKey::lemma_parts(other_key, key);
                    }
                }
            }
            None
        }
    }
}

/// The text is the kernel UUID of a volume generation on a node.
pub open spec fn is_owned_uuid(value: Seq<char>, node_id: VolumeNodeId, key: ReplicaKey) -> bool {
    &&& value == uuid_text(node_id, key)
    &&& node_id.value() != 0
    &&& key.volume().value() != 0
    &&& key.generation_of().value() != 0
}

/// Numbers at the fixed places of a kernel UUID.
spec fn parsed_uuid(value: Seq<char>) -> Option<(u128, u128, u64)> {
    if value.len() < 81 {
        None
    } else {
        match (
            hex_number(value.subrange(12, 44)),
            hex_number(value.subrange(46, 78)),
            crate::text::decimal_value(value.skip(80)),
        ) {
            (Some(node), Some(volume), Some(generation)) => if node <= u128::MAX && volume
                <= u128::MAX && generation <= u64::MAX {
                Some((node as u128, volume as u128, generation as u64))
            } else {
                None
            },
            _ => None,
        }
    }
}

/// A kernel UUID holds its numbers at their fixed places.
proof fn lemma_parsed_uuid(node_id: VolumeNodeId, key: ReplicaKey)
    ensures
        parsed_uuid(uuid_text(node_id, key)) == Some(
            (node_id.value(), key.volume().value(), key.generation_of().value()),
        ),
        is_ascii_chars(uuid_text(node_id, key)),
        uuid_text(node_id, key).len() >= 81,
{
    let value = uuid_text(node_id, key);
    let node = hex_text(node_id.value() as nat, 32);
    let volume = hex_text(key.volume().value() as nat, 32);
    let generation = decimal_text(key.generation_of().value() as nat);
    reveal_strlit("MANTISSA-RV-");
    reveal_strlit("-V");
    reveal_strlit("-G");
    lemma_hex_width(node_id.value());
    lemma_hex_width(key.volume().value());
    law_hex_number_round_trip(node_id.value() as nat, 32);
    law_hex_number_round_trip(key.volume().value() as nat, 32);
    law_decimal_round_trip(key.generation_of().value() as nat);
    lemma_decimal_text(key.generation_of().value());
    assert(value.subrange(12, 44) =~= node);
    assert(value.subrange(46, 78) =~= volume);
    assert(value.skip(80) =~= generation);
    assert forall|i: int| 0 <= i < value.len() implies '\0' <= #[trigger] value[i] <= '\u{7f}' by {
        if 12 <= i < 44 {
            assert(value[i] == node[i - 12]);
        } else if 46 <= i < 78 {
            assert(value[i] == volume[i - 46]);
        } else if i >= 80 {
            assert(value[i] == generation[i - 80]);
        }
    }
}

/// Every kernel name and UUID fits the kernel limits.
pub proof fn lemma_identity_fits(node_id: VolumeNodeId, key: ReplicaKey)
    ensures
        identity_value_error(
            IdentityField::Name,
            name_text(node_id, key),
            DEVICE_MAPPER_NAME_MAX_BYTES,
        ) is None,
        identity_value_error(
            IdentityField::Uuid,
            uuid_text(node_id, key),
            DEVICE_MAPPER_UUID_MAX_BYTES,
        ) is None,
{
    let name = name_text(node_id, key);
    let node = hex_text(node_id.value() as nat, 32);
    let volume = hex_text(key.volume().value() as nat, 32);
    let generation = decimal_text(key.generation_of().value() as nat);
    reveal_strlit("mantissa-rv-");
    reveal_strlit("MANTISSA-RV-");
    reveal_strlit("-");
    reveal_strlit("-g");
    reveal_strlit("-V");
    reveal_strlit("-G");
    lemma_hex_width(node_id.value());
    lemma_hex_width(key.volume().value());
    law_hex_number_round_trip(node_id.value() as nat, 32);
    law_hex_number_round_trip(key.volume().value() as nat, 32);
    lemma_decimal_text(key.generation_of().value());
    lemma_parsed_uuid(node_id, key);
    assert forall|i: int| 0 <= i < name.len() implies '\0' <= #[trigger] name[i] <= '\u{7f}' by {
        if 12 <= i < 44 {
            assert(name[i] == node[i - 12]);
        } else if 45 <= i < 77 {
            assert(name[i] == volume[i - 45]);
        } else if i >= 79 {
            assert(name[i] == generation[i - 79]);
        }
    }
    vstd::utf8::is_ascii_chars_encode_utf8(name);
    vstd::utf8::is_ascii_chars_encode_utf8(uuid_text(node_id, key));
}

/// Different nodes or generations have different kernel UUIDs, names and paths.
pub proof fn law_identity_is_unique(
    node_id: VolumeNodeId,
    key: ReplicaKey,
    other_node: VolumeNodeId,
    other_key: ReplicaKey,
)
    requires
        (node_id, key) != (other_node, other_key),
    ensures
        uuid_text(node_id, key) != uuid_text(other_node, other_key),
        name_text(node_id, key) != name_text(other_node, other_key),
        path_text(node_id, key) != path_text(other_node, other_key),
{
    lemma_parsed_uuid(node_id, key);
    lemma_parsed_uuid(other_node, other_key);
    VolumeNodeId::lemma_value(node_id, other_node);
    VolumeId::lemma_made(key.volume().value(), key.volume());
    VolumeId::lemma_made(other_key.volume().value(), other_key.volume());
    VolumeGeneration::lemma_value(key.generation_of(), other_key.generation_of());
    ReplicaKey::lemma_parts(key, other_key);
    let a = name_text(node_id, key);
    let b = name_text(other_node, other_key);
    if a == b {
        reveal_strlit("mantissa-rv-");
        reveal_strlit("-");
        reveal_strlit("-g");
        lemma_hex_width(node_id.value());
        lemma_hex_width(key.volume().value());
        lemma_hex_width(other_node.value());
        lemma_hex_width(other_key.volume().value());
        law_hex_number_round_trip(node_id.value() as nat, 32);
        law_hex_number_round_trip(key.volume().value() as nat, 32);
        law_hex_number_round_trip(other_node.value() as nat, 32);
        law_hex_number_round_trip(other_key.volume().value() as nat, 32);
        law_decimal_round_trip(key.generation_of().value() as nat);
        law_decimal_round_trip(other_key.generation_of().value() as nat);
        assert(a.subrange(12, 44) =~= hex_text(node_id.value() as nat, 32));
        assert(b.subrange(12, 44) =~= hex_text(other_node.value() as nat, 32));
        assert(a.subrange(45, 77) =~= hex_text(key.volume().value() as nat, 32));
        assert(b.subrange(45, 77) =~= hex_text(other_key.volume().value() as nat, 32));
        assert(a.skip(79) =~= decimal_text(key.generation_of().value() as nat));
        assert(b.skip(79) =~= decimal_text(other_key.generation_of().value() as nat));
    }
    if path_text(node_id, key) == path_text(other_node, other_key) {
        reveal_strlit("/dev/mapper/");
        assert(path_text(node_id, key).skip(12) =~= a);
        assert(path_text(other_node, other_key).skip(12) =~= b);
    }
}

/// The kernel UUID of a volume generation is recognized as its own.
pub proof fn law_identity_round_trip(node_id: VolumeNodeId, key: ReplicaKey)
    requires
        node_id.value() != 0,
        key.volume().value() != 0,
        key.generation_of().value() != 0,
    ensures
        is_owned_uuid(uuid_text(node_id, key), node_id, key),
        forall|other_node: VolumeNodeId, other_key: ReplicaKey| #[trigger]
            is_owned_uuid(uuid_text(node_id, key), other_node, other_key) ==> other_node == node_id
                && other_key == key,
{
    assert forall|other_node: VolumeNodeId, other_key: ReplicaKey| #[trigger]
        is_owned_uuid(uuid_text(node_id, key), other_node, other_key) implies other_node == node_id
        && other_key == key by {
        if (node_id, key) != (other_node, other_key) {
            law_identity_is_unique(node_id, key, other_node, other_key);
        }
    }
}

} // verus!
