//! Mapped volumes: their layouts, what the kernel has of them, and the next safe step.

use vstd::prelude::*;
use vstd::utf8::encode_utf8;

use super::mapped_error::{
    copy_optional, copy_text, optional_text, wrong_layout, MappedErrorView, MappedVolumeError,
};
use super::mapped_identity::{
    name_text, path_text, uuid_text, BlockDeviceNumber, MappedVolumeIdentity,
};
use super::mapped_tables::{
    classify_backend_switch, flag_text, linear_error, push_flag, switch_state, table_view,
    validate_linear_table, BackendSwitchAction, RawTarget, SavedLinearLayout, TargetView,
};
use crate::bytes::copy_bytes;
use crate::catalog::model::ReplicaKey;
use crate::text::{
    chars_of, decimal_failure, decimal_text, decimal_value, push_decimal, push_text, read_decimal,
    same_text, trim_text, trimmed,
};
use crate::volume::block_sizes::{VolumeBlockSizes, REQUIRED_BLOCK_BYTES};
use crate::volume::descriptor::{capacity_error, VolumeDescriptor};
use crate::volume::identity::VolumeNodeId;

verus! {

/// Bytes of one device-mapper sector.
pub const DEVICE_MAPPER_SECTOR_BYTES: u64 = 512;

/// Exact dm-linear layout required for one replicated volume generation.
#[derive(Debug, PartialEq, Eq)]
pub struct MappedVolumeLayout {
    identity: MappedVolumeIdentity,
    capacity_bytes: u64,
    block_sizes: VolumeBlockSizes,
    backend_path: Vec<u8>,
}

/// Model of a layout.
pub struct LayoutView {
    pub node_id: VolumeNodeId,
    pub key: ReplicaKey,
    pub capacity_bytes: u64,
    pub block_sizes: VolumeBlockSizes,
    pub backend_path: Seq<u8>,
}

impl LayoutView {
    /// Kernel name.
    pub open spec fn name(self) -> Seq<char> {
        name_text(self.node_id, self.key)
    }

    /// Kernel UUID.
    pub open spec fn uuid(self) -> Seq<char> {
        uuid_text(self.node_id, self.key)
    }

    /// Path of the mapped device.
    pub open spec fn path(self) -> Seq<char> {
        path_text(self.node_id, self.key)
    }

    /// Number of device-mapper sectors.
    pub open spec fn sectors(self) -> u64 {
        self.capacity_bytes / DEVICE_MAPPER_SECTOR_BYTES
    }

    /// Values stored in the linear table over a backend.
    pub open spec fn saved(self, backend: BlockDeviceNumber) -> SavedLinearLayout {
        SavedLinearLayout { sectors: self.sectors(), backend }
    }
}

impl View for MappedVolumeLayout {
    type V = LayoutView;

    closed spec fn view(&self) -> LayoutView {
        LayoutView {
            node_id: self.identity.node(),
            key: self.identity.volume_key(),
            capacity_bytes: self.capacity_bytes,
            block_sizes: self.block_sizes,
            backend_path: self.backend_path@,
        }
    }
}

impl MappedVolumeLayout {
    /// Derives one mapped device from the current descriptor and ublk backend.
    pub fn new(node_id: VolumeNodeId, descriptor: &VolumeDescriptor, backend_path: Vec<u8>) -> (out:
        Result<Self, MappedVolumeError>)
        ensures
            out matches Ok(layout) && layout@ == (LayoutView {
                node_id,
                key: ReplicaKey::key_of(*descriptor),
                capacity_bytes: descriptor.capacity_of().size(),
                block_sizes: descriptor.sizes(),
                backend_path: backend_path@,
            }),
    {
        let capacity_bytes: u64 = descriptor.capacity().bytes();
        proof {
            assert(capacity_error(capacity_bytes) is None);
            assert(capacity_bytes % 4096 == 0);
            assert(capacity_bytes % 512 == 0);
        }
        if capacity_bytes % DEVICE_MAPPER_SECTOR_BYTES != 0 {
            return Err(MappedVolumeError::CapacityNotSectorAligned { capacity_bytes });
        }
        match MappedVolumeIdentity::new(node_id, ReplicaKey::from_descriptor(descriptor)) {
            Ok(identity) => Ok(
                MappedVolumeLayout {
                    identity,
                    capacity_bytes,
                    block_sizes: descriptor.block_sizes(),
                    backend_path,
                },
            ),
            Err(error) => Err(error),
        }
    }

    /// Returns the deterministic identity.
    #[must_use]
    pub fn identity(&self) -> (out: &MappedVolumeIdentity)
        ensures
            out.node() == self@.node_id,
            out.volume_key() == self@.key,
    {
        &self.identity
    }

    /// Returns the volume generation represented by this mapping.
    #[must_use]
    pub fn key(&self) -> (out: ReplicaKey)
        ensures
            out == self@.key,
    {
        self.identity.key()
    }

    /// Returns the local volume node that owns this kernel mapping.
    #[must_use]
    pub fn node_id(&self) -> (out: VolumeNodeId)
        ensures
            out == self@.node_id,
    {
        self.identity.node_id()
    }

    /// Returns the kernel name.
    #[must_use]
    pub fn name(&self) -> (out: &str)
        ensures
            out@ == self@.name(),
    {
        self.identity.name()
    }

    /// Returns the kernel UUID.
    #[must_use]
    pub fn uuid(&self) -> (out: &str)
        ensures
            out@ == self@.uuid(),
    {
        self.identity.uuid()
    }

    /// Returns the deterministic path after an ensure call succeeds.
    #[must_use]
    pub fn expected_path(&self) -> (out: &str)
        ensures
            out@ == self@.path(),
    {
        self.identity.path()
    }

    /// Returns the private ublk path used by the linear target.
    #[must_use]
    pub fn backend_path(&self) -> (out: &[u8])
        ensures
            out@ == self@.backend_path,
    {
        self.backend_path.as_slice()
    }

    /// Returns the byte capacity exposed by the mapped device.
    #[must_use]
    pub fn capacity_bytes(&self) -> (out: u64)
        ensures
            out == self@.capacity_bytes,
    {
        self.capacity_bytes
    }

    /// Returns the block sizes the mapped device must preserve.
    #[must_use]
    pub fn block_sizes(&self) -> (out: VolumeBlockSizes)
        ensures
            out == self@.block_sizes,
    {
        self.block_sizes
    }

    /// Returns the number of 512-byte sectors required by dm-linear.
    #[must_use]
    pub fn device_mapper_sectors(&self) -> (out: u64)
        ensures
            out == self@.sectors(),
    {
        self.capacity_bytes / DEVICE_MAPPER_SECTOR_BYTES
    }

    /// Returns the values stored in the linear table over a backend.
    pub fn saved_layout(&self, backend: BlockDeviceNumber) -> (out: SavedLinearLayout)
        ensures
            out == self@.saved(backend),
    {
        SavedLinearLayout { sectors: self.device_mapper_sectors(), backend }
    }

    /// Returns the filesystem-facing path once its mapping was verified.
    pub fn mapped_path(&self) -> (out: MappedVolumePath)
        ensures
            out@ == self@.path(),
    {
        MappedVolumePath(copy_text(self.identity.path()))
    }
}

/// Filesystem-facing path proven to use the exact expected dm-linear table.
#[derive(Debug, PartialEq, Eq)]
pub struct MappedVolumePath(String);

impl View for MappedVolumePath {
    type V = Seq<char>;

    closed spec fn view(&self) -> Seq<char> {
        self.0@
    }
}

impl MappedVolumePath {
    /// Returns the deterministic /dev/mapper path.
    #[must_use]
    pub fn as_path(&self) -> (out: &str)
        ensures
            out@ == self@,
    {
        self.0.as_str()
    }

    /// Returns ownership of the deterministic path.
    #[must_use]
    pub fn into_path_buf(self) -> (out: String)
        ensures
            out@ == self@,
    {
        self.0
    }
}

/// Kernel identity fields read for one mapping name.
#[derive(Debug, PartialEq, Eq)]
pub struct KernelMapping {
    pub name: String,
    pub uuid: Option<String>,
    pub device_number: BlockDeviceNumber,
    pub suspended: bool,
}

/// Model of the kernel identity fields.
pub struct MappingView {
    pub name: Seq<char>,
    pub uuid: Option<Seq<char>>,
    pub device_number: BlockDeviceNumber,
    pub suspended: bool,
}

impl View for KernelMapping {
    type V = MappingView;

    open spec fn view(&self) -> MappingView {
        MappingView {
            name: self.name@,
            uuid: optional_text(self.uuid),
            device_number: self.device_number,
            suspended: self.suspended,
        }
    }
}

/// Kernel mappings as plain values.
pub open spec fn mapping_views(devices: Seq<KernelMapping>) -> Seq<MappingView> {
    devices.map_values(|device: KernelMapping| device@)
}

/// First mapping with a name.
pub open spec fn place_of_name(devices: Seq<MappingView>, name: Seq<char>) -> Option<int>
    decreases devices.len(),
{
    if devices.len() == 0 {
        None
    } else if place_of_name(devices.drop_last(), name) is Some {
        place_of_name(devices.drop_last(), name)
    } else if devices.last().name == name {
        Some(devices.len() - 1)
    } else {
        None
    }
}

/// Places of the mappings with a UUID.
pub open spec fn places_of_uuid(devices: Seq<MappingView>, uuid: Seq<char>) -> Seq<int>
    decreases devices.len(),
{
    if devices.len() == 0 {
        Seq::empty()
    } else {
        let rest = places_of_uuid(devices.drop_last(), uuid);
        if devices.last().uuid == Some(uuid) {
            rest.push(devices.len() - 1)
        } else {
            rest
        }
    }
}

/// The first mapping with a name stays the first among more mappings.
proof fn lemma_name_place_grows(devices: Seq<MappingView>, name: Seq<char>, upto: int)
    requires
        0 <= upto <= devices.len(),
    ensures
        place_of_name(devices.take(upto), name) is Some ==> place_of_name(devices, name)
            == place_of_name(devices.take(upto), name),
        place_of_name(devices, name) matches Some(at) ==> 0 <= at < devices.len()
            && devices[at].name == name,
    decreases devices.len(),
{
    if devices.len() > 0 {
        if upto < devices.len() {
            lemma_name_place_grows(devices.drop_last(), name, upto);
            assert(devices.drop_last().take(upto) =~= devices.take(upto));
        } else {
            lemma_name_place_grows(devices.drop_last(), name, upto - 1);
            assert(devices.take(upto) =~= devices);
        }
    } else {
        assert(devices.take(upto) =~= devices);
    }
}

/// Finds the first mapping with a name.
fn find_name(devices: &[KernelMapping], name: &str) -> (out: Option<usize>)
    ensures
        match out {
            Some(at) => place_of_name(mapping_views(devices@), name@) == Some(at as int) && at
                < devices@.len(),
            None => place_of_name(mapping_views(devices@), name@) is None,
        },
{
    let ghost all = mapping_views(devices@);
    let mut i: usize = 0;
    proof { assert(all.take(0) =~= Seq::<MappingView>::empty()); }
    while i < devices.len()
        invariant
            i <= devices@.len(),
            all == mapping_views(devices@),
            place_of_name(all.take(i as int), name@) is None,
        decreases devices@.len() - i,
    {
        proof {
            assert(all.take(i + 1).drop_last() =~= all.take(i as int));
            assert(all.take(i + 1).last() == devices@[i as int]@);
            lemma_name_place_grows(all, name@, i + 1);
        }
        if same_text(devices[i].name.as_str(), name) {
            return Some(i);
        }
        i += 1;
    }
    proof { assert(all.take(all.len() as int) =~= all); }
    None
}

/// Returns whether an optional text is the given one.
fn is_text(value: &Option<String>, text: &str) -> (out: bool)
    ensures
        out == (optional_text(*value) == Some(text@)),
{
    match value {
        Some(value) => same_text(value.as_str(), text),
        None => false,
    }
}

/// Finds the mappings with a UUID.
fn find_uuid(devices: &[KernelMapping], uuid: &str) -> (out: Vec<usize>)
    ensures
        out@.len() == places_of_uuid(mapping_views(devices@), uuid@).len(),
        forall|i: int|
            #![trigger out@[i]]
            0 <= i < out@.len() ==> out@[i] == places_of_uuid(mapping_views(devices@), uuid@)[i]
                && out@[i] < devices@.len() && devices@[out@[i] as int]@.uuid == Some(uuid@),
{
    let ghost all = mapping_views(devices@);
    let mut out: Vec<usize> = Vec::new();
    let mut i: usize = 0;
    proof { assert(all.take(0) =~= Seq::<MappingView>::empty()); }
    while i < devices.len()
        invariant
            i <= devices@.len(),
            all == mapping_views(devices@),
            out@.len() == places_of_uuid(all.take(i as int), uuid@).len(),
            forall|k: int|
                #![trigger out@[k]]
                0 <= k < out@.len() ==> out@[k] == places_of_uuid(all.take(i as int), uuid@)[k]
                    && out@[k] < i && devices@[out@[k] as int]@.uuid == Some(uuid@),
        decreases devices@.len() - i,
    {
        proof {
            assert(all.take(i + 1).drop_last() =~= all.take(i as int));
            assert(all.take(i + 1).last() == devices@[i as int]@);
        }
        if is_text(&devices[i].uuid, uuid) {
            out.push(i);
        }
        i += 1;
    }
    proof { assert(all.take(all.len() as int) =~= all); }
    out
}

/// Why the mapping with a name is not the one with the UUID.
pub open spec fn foreign_error(
    name: Seq<char>,
    uuid: Seq<char>,
    devices: Seq<MappingView>,
) -> Option<MappedErrorView> {
    match place_of_name(devices, name) {
        Some(at) => if devices[at].uuid != Some(uuid) {
            Some(MappedErrorView::ForeignName { name, actual_uuid: devices[at].uuid })
        } else {
            None
        },
        None => None,
    }
}

/// Finds the mapping of an identity by name and refuses one that another application owns.
pub fn find_own(identity: &MappedVolumeIdentity, devices: &[KernelMapping]) -> (out: Result<
    Option<usize>,
    MappedVolumeError,
>)
    ensures
        ({
            let name = name_text(identity.node(), identity.volume_key());
            let uuid = uuid_text(identity.node(), identity.volume_key());
            let all = mapping_views(devices@);
            match out {
                Ok(Some(at)) => foreign_error(name, uuid, all) is None && place_of_name(all, name)
                    == Some(at as int) && at < devices@.len(),
                Ok(None) => place_of_name(all, name) is None,
                Err(error) => foreign_error(name, uuid, all) == Some(error@),
            }
        }),
{
    match find_name(devices, identity.name()) {
        Some(at) => {
            proof { assert(mapping_views(devices@)[at as int] == devices@[at as int]@); }
            if !is_text(&devices[at].uuid, identity.uuid()) {
                return Err(
                    MappedVolumeError::ForeignName {
                        name: copy_text(identity.name()),
                        actual_uuid: copy_optional(&devices[at].uuid),
                    },
                );
            }
            Ok(Some(at))
        },
        None => Ok(None),
    }
}

/// Which of the reasons names a mapping that must exist and does not.
#[derive(Clone, Copy, Debug, PartialEq, Eq, Structural)]
pub enum MissingMapping {
    /// The mapping was saved.
    Saved,

    /// The mapping takes part in a backend switch.
    Switched,
}

/// Place of a mapping that must exist, or why it cannot be used.
pub open spec fn required_place(
    name: Seq<char>,
    uuid: Seq<char>,
    devices: Seq<MappingView>,
    missing: MissingMapping,
) -> Result<int, MappedErrorView> {
    match place_of_name(devices, name) {
        None => Err(
            MappedErrorView::WrongLayout {
                name,
                reason: match missing {
                    MissingMapping::Saved => "saved mapped volume does not exist"@,
                    MissingMapping::Switched => "mapped volume does not exist"@,
                },
            },
        ),
        Some(at) => match foreign_error(name, uuid, devices) {
            Some(error) => Err(error),
            None => Ok(at),
        },
    }
}

/// Finds the mapping of a layout, which must exist.
pub fn find_required(
    layout: &MappedVolumeLayout,
    devices: &[KernelMapping],
    missing: MissingMapping,
) -> (out: Result<usize, MappedVolumeError>)
    ensures
        ({
            let place = required_place(
                layout@.name(),
                layout@.uuid(),
                mapping_views(devices@),
                missing,
            );
            match out {
                Ok(at) => place == Ok::<int, MappedErrorView>(at as int) && at < devices@.len(),
                Err(error) => place == Err::<int, MappedErrorView>(error@),
            }
        }),
{
    match find_own(layout.identity(), devices) {
        Err(error) => Err(error),
        Ok(Some(at)) => Ok(at),
        Ok(None) => match missing {
            MissingMapping::Saved => Err(
                wrong_layout(layout.name(), "saved mapped volume does not exist"),
            ),
            MissingMapping::Switched => Err(
                wrong_layout(layout.name(), "mapped volume does not exist"),
            ),
        },
    }
}

/// Place of the mapping that carries an identity, if one does, or why the kernel's mappings
/// are not as they must be.
pub open spec fn existing_place(
    name: Seq<char>,
    uuid: Seq<char>,
    devices: Seq<MappingView>,
) -> Result<Option<int>, MappedErrorView> {
    let places = places_of_uuid(devices, uuid);
    if foreign_error(name, uuid, devices) is Some {
        Err(foreign_error(name, uuid, devices)->Some_0)
    } else if places.len() > 1 {
        Err(MappedErrorView::DuplicateUuid { uuid, count: places.len() as usize })
    } else if places.len() == 0 {
        Ok(None)
    } else if devices[places[0]].name != name {
        Err(MappedErrorView::WrongName { uuid, actual_name: devices[places[0]].name })
    } else {
        Ok(Some(places[0]))
    }
}

/// Finds the mapping that carries the identity of a layout.
pub fn locate_existing(layout: &MappedVolumeLayout, devices: &[KernelMapping]) -> (out: Result<
    Option<usize>,
    MappedVolumeError,
>)
    ensures
        ({
            let place = existing_place(layout@.name(), layout@.uuid(), mapping_views(devices@));
            match out {
                Ok(Some(at)) => place == Ok::<Option<int>, MappedErrorView>(Some(at as int)) && at
                    < devices@.len(),
                Ok(None) => place == Ok::<Option<int>, MappedErrorView>(None),
                Err(error) => place == Err::<Option<int>, MappedErrorView>(error@),
            }
        }),
{
    if let Err(error) = find_own(layout.identity(), devices) {
        return Err(error);
    }
    let places = find_uuid(devices, layout.uuid());
    if places.len() > 1 {
        return Err(
            MappedVolumeError::DuplicateUuid {
                uuid: copy_text(layout.uuid()),
                count: places.len(),
            },
        );
    }
    if places.len() == 0 {
        return Ok(None);
    }
    let at: usize = places[0];
    proof { assert(mapping_views(devices@)[at as int] == devices@[at as int]@); }
    if !same_text(devices[at].name.as_str(), layout.name()) {
        return Err(
            MappedVolumeError::WrongName {
                uuid: copy_text(layout.uuid()),
                actual_name: copy_text(devices[at].name.as_str()),
            },
        );
    }
    Ok(Some(at))
}

/// Existing state relevant to one expected mapping.
#[derive(Clone, Copy, Debug, PartialEq, Eq, Structural)]
pub enum ExistingMapping {
    /// The kernel has no such mapping.
    Absent,

    /// The mapping has no table.
    Empty,

    /// The expected table is loaded and not active.
    Inactive,

    /// The expected table is active.
    Exact,
}

/// State of an existing mapping, or why its tables are not as they must be.
pub open spec fn existing_state(
    name: Seq<char>,
    active: Seq<TargetView>,
    inactive: Seq<TargetView>,
    suspended: bool,
    saved: SavedLinearLayout,
) -> Result<ExistingMapping, MappedErrorView> {
    if active.len() == 0 && inactive.len() == 0 {
        Ok(ExistingMapping::Empty)
    } else if active.len() == 0 {
        match linear_error(name, inactive, saved.sectors, saved.backend) {
            Some(error) => Err(error),
            None => Ok(ExistingMapping::Inactive),
        }
    } else if inactive.len() == 0 && !suspended {
        match linear_error(name, active, saved.sectors, saved.backend) {
            Some(error) => Err(error),
            None => Ok(ExistingMapping::Exact),
        }
    } else {
        Err(
            MappedErrorView::WrongLayout {
                name,
                reason: "active_targets="@ + decimal_text(active.len()) + ", inactive_targets="@
                    + decimal_text(inactive.len()) + ", suspended="@ + flag_text(suspended),
            },
        )
    }
}

/// Checks one found mapping against the exact table rules.
pub fn inspect_existing(
    layout: &MappedVolumeLayout,
    backend: BlockDeviceNumber,
    active: &[RawTarget],
    inactive: &[RawTarget],
    suspended: bool,
) -> (out: Result<ExistingMapping, MappedVolumeError>)
    ensures
        ({
            let state = existing_state(
                layout@.name(),
                table_view(active@),
                table_view(inactive@),
                suspended,
                layout@.saved(backend),
            );
            match out {
                Ok(existing) => state == Ok::<ExistingMapping, MappedErrorView>(existing),
                Err(error) => state == Err::<ExistingMapping, MappedErrorView>(error@),
            }
        }),
{
    let name = layout.name();
    let sectors: u64 = layout.device_mapper_sectors();
    if active.len() == 0 && inactive.len() == 0 {
        return Ok(ExistingMapping::Empty);
    }
    if active.len() == 0 {
        return match validate_linear_table(name, inactive, sectors, backend) {
            Ok(()) => Ok(ExistingMapping::Inactive),
            Err(error) => Err(error),
        };
    }
    if inactive.len() == 0 && !suspended {
        return match validate_linear_table(name, active, sectors, backend) {
            Ok(()) => Ok(ExistingMapping::Exact),
            Err(error) => Err(error),
        };
    }
    let mut reason = String::new();
    push_text(&mut reason, "active_targets=");
    push_decimal(&mut reason, active.len() as u64);
    push_text(&mut reason, ", inactive_targets=");
    push_decimal(&mut reason, inactive.len() as u64);
    push_text(&mut reason, ", suspended=");
    push_flag(&mut reason, suspended);
    proof {
        assert(reason@ =~= "active_targets="@ + decimal_text(active@.len())
            + ", inactive_targets="@ + decimal_text(inactive@.len()) + ", suspended="@ + flag_text(
            suspended,
        ));
    }
    Err(wrong_layout(name, reason.as_str()))
}

/// Operation that is repeated until the kernel reached a state.
#[derive(Clone, Copy, Debug, PartialEq, Eq, Structural)]
pub enum MappingRun {
    /// Make the mapping active.
    Ensure,

    /// Resume a saved mapping.
    Resume,

    /// Suspend a mapping before its backend is replaced.
    Suspend,

    /// Replace the backend.
    Switch,
}

impl MappingRun {
    /// Number of rounds after which an operation gives up.
    pub open spec fn limit(self) -> u32 {
        match self {
            MappingRun::Ensure | MappingRun::Switch => 4,
            MappingRun::Resume | MappingRun::Suspend => 3,
        }
    }

    /// What did not happen when an operation gives up.
    pub open spec fn failure(self) -> Seq<char> {
        match self {
            MappingRun::Ensure => "mapping did not reach its active state"@,
            MappingRun::Resume => "saved mapping remained suspended after resume"@,
            MappingRun::Suspend => "mapped volume did not reach its suspended state"@,
            MappingRun::Switch => "larger backend did not become active"@,
        }
    }

    /// Returns the number of rounds after which the operation gives up.
    pub fn rounds(self) -> (out: u32)
        ensures
            out == self.limit(),
    {
        match self {
            MappingRun::Ensure => 4,
            MappingRun::Switch => 4,
            MappingRun::Resume => 3,
            MappingRun::Suspend => 3,
        }
    }

    /// Takes one of the rounds that are left.
    pub fn next_round(self, left: u32, layout: &MappedVolumeLayout) -> (out: Result<
        u32,
        MappedVolumeError,
    >)
        ensures
            match out {
                Ok(rest) => left > 0 && rest == left - 1,
                Err(error) => left == 0 && error@ == (MappedErrorView::WrongLayout {
                    name: layout@.name(),
                    reason: self.failure(),
                }),
            },
    {
        if left > 0 {
            return Ok(left - 1);
        }
        match self {
            MappingRun::Ensure => Err(
                wrong_layout(layout.name(), "mapping did not reach its active state"),
            ),
            MappingRun::Resume => Err(
                wrong_layout(layout.name(), "saved mapping remained suspended after resume"),
            ),
            MappingRun::Suspend => Err(
                wrong_layout(layout.name(), "mapped volume did not reach its suspended state"),
            ),
            MappingRun::Switch => Err(
                wrong_layout(layout.name(), "larger backend did not become active"),
            ),
        }
    }
}

/// Kernel operation that brings a mapping closer to its active state.
#[derive(Clone, Copy, Debug, PartialEq, Eq, Structural)]
pub enum EnsureAction {
    /// Create the mapping under its name and UUID.
    Create,

    /// Load the expected table.
    Load,

    /// Resume the mapping, which makes the loaded table active.
    Activate,

    /// Verify the mapped path and finish.
    Verify,
}

/// Decides the next operation towards an active mapping.
pub fn ensure(existing: ExistingMapping) -> (out: EnsureAction)
    ensures
        out == match existing {
            ExistingMapping::Absent => EnsureAction::Create,
            ExistingMapping::Empty => EnsureAction::Load,
            ExistingMapping::Inactive => EnsureAction::Activate,
            ExistingMapping::Exact => EnsureAction::Verify,
        },
{
    match existing {
        ExistingMapping::Absent => EnsureAction::Create,
        ExistingMapping::Empty => EnsureAction::Load,
        ExistingMapping::Inactive => EnsureAction::Activate,
        ExistingMapping::Exact => EnsureAction::Verify,
    }
}

/// Decides whether an existing mapping may be used without changing it: it is absent, or it
/// is active and must be verified.
pub fn inspect(layout: &MappedVolumeLayout, existing: ExistingMapping) -> (out: Result<
    bool,
    MappedVolumeError,
>)
    ensures
        match out {
            Ok(present) => present == (existing == ExistingMapping::Exact) && (existing
                == ExistingMapping::Exact || existing == ExistingMapping::Absent),
            Err(error) => (existing == ExistingMapping::Empty || existing
                == ExistingMapping::Inactive) && error@ == (MappedErrorView::WrongLayout {
                name: layout@.name(),
                reason: "mapping is not active"@,
            }),
        },
{
    match existing {
        ExistingMapping::Absent => Ok(false),
        ExistingMapping::Exact => Ok(true),
        _ => Err(wrong_layout(layout.name(), "mapping is not active")),
    }
}

/// Next step of resuming a saved mapping.
#[derive(Clone, Copy, Debug, PartialEq, Eq, Structural)]
pub enum ResumeAction {
    /// The mapping runs: verify the mapped path and finish.
    Verify,

    /// The mapping is suspended: resume it.
    Resume,
}

/// Next step of resuming a saved mapping, or why it must not be resumed.
pub open spec fn resume_step(
    name: Seq<char>,
    active: Seq<TargetView>,
    inactive: Seq<TargetView>,
    suspended: bool,
    saved: SavedLinearLayout,
) -> Result<ResumeAction, MappedErrorView> {
    match linear_error(name, active, saved.sectors, saved.backend) {
        Some(error) => Err(error),
        None => if inactive.len() > 0 {
            Err(
                MappedErrorView::WrongLayout {
                    name,
                    reason: "saved mapping has an unfinished inactive table"@,
                },
            )
        } else if suspended {
            Ok(ResumeAction::Resume)
        } else {
            Ok(ResumeAction::Verify)
        },
    }
}

/// Decides the next step of resuming one exact active saved mapping without accepting a
/// pending table.
pub fn resume_exact(
    layout: &MappedVolumeLayout,
    backend: BlockDeviceNumber,
    active: &[RawTarget],
    inactive: &[RawTarget],
    suspended: bool,
) -> (out: Result<ResumeAction, MappedVolumeError>)
    ensures
        ({
            let step = resume_step(
                layout@.name(),
                table_view(active@),
                table_view(inactive@),
                suspended,
                layout@.saved(backend),
            );
            match out {
                Ok(action) => step == Ok::<ResumeAction, MappedErrorView>(action),
                Err(error) => step == Err::<ResumeAction, MappedErrorView>(error@),
            }
        }),
{
    if let Err(error) = validate_linear_table(
        layout.name(),
        active,
        layout.device_mapper_sectors(),
        backend,
    ) {
        return Err(error);
    }
    if inactive.len() > 0 {
        return Err(
            wrong_layout(layout.name(), "saved mapping has an unfinished inactive table"),
        );
    }
    if suspended {
        Ok(ResumeAction::Resume)
    } else {
        Ok(ResumeAction::Verify)
    }
}

/// Why a backend cannot be replaced by another one.
pub open spec fn switch_request_error(current: LayoutView, larger: LayoutView) -> Option<
    MappedErrorView,
> {
    if current.node_id != larger.node_id || current.key != larger.key || current.block_sizes
        != larger.block_sizes || larger.capacity_bytes <= current.capacity_bytes {
        Some(
            MappedErrorView::WrongLayout {
                name: current.name(),
                reason:
                    "backend switch requires the same volume and block sizes at a larger capacity"@,
            },
        )
    } else {
        None
    }
}

/// Checks that one layout may replace another.
pub fn check_switch_request(current: &MappedVolumeLayout, larger: &MappedVolumeLayout) -> (out:
    Result<(), MappedVolumeError>)
    ensures
        match out {
            Ok(()) => switch_request_error(current@, larger@) is None,
            Err(error) => switch_request_error(current@, larger@) == Some(error@),
        },
{
    if !current.identity().same(larger.identity()) || current.block_sizes() != larger.block_sizes()
        || larger.capacity_bytes() <= current.capacity_bytes() {
        return Err(
            wrong_layout(
                current.name(),
                "backend switch requires the same volume and block sizes at a larger capacity",
            ),
        );
    }
    Ok(())
}

/// Next step of suspending a mapping before its backend is replaced.
#[derive(Clone, Copy, Debug, PartialEq, Eq, Structural)]
pub enum SuspendAction {
    /// The larger backend is active already: verify it and finish.
    VerifyLarger,

    /// The old backend is suspended: verify it and finish.
    VerifyCurrent,

    /// Suspend the mapping.
    Suspend,
}

/// Next step of suspending a mapping, or why its tables are none that a switch leaves.
pub open spec fn suspend_step(
    name: Seq<char>,
    active: Seq<TargetView>,
    inactive: Seq<TargetView>,
    suspended: bool,
    current: SavedLinearLayout,
    larger: SavedLinearLayout,
) -> Result<SuspendAction, MappedErrorView> {
    match switch_state(name, active, inactive, suspended, current, larger) {
        Err(error) => Err(error),
        Ok(action) => if action == BackendSwitchAction::Finish {
            Ok(SuspendAction::VerifyLarger)
        } else if suspended {
            Ok(SuspendAction::VerifyCurrent)
        } else {
            Ok(SuspendAction::Suspend)
        },
    }
}

/// Decides the next step of suspending old mapped I/O before the replicated backend is
/// flushed and replaced.
pub fn suspend_for_backend_switch(
    name: &str,
    active: &[RawTarget],
    inactive: &[RawTarget],
    suspended: bool,
    current: SavedLinearLayout,
    larger: SavedLinearLayout,
) -> (out: Result<SuspendAction, MappedVolumeError>)
    ensures
        ({
            let step = suspend_step(
                name@,
                table_view(active@),
                table_view(inactive@),
                suspended,
                current,
                larger,
            );
            match out {
                Ok(action) => step == Ok::<SuspendAction, MappedErrorView>(action),
                Err(error) => step == Err::<SuspendAction, MappedErrorView>(error@),
            }
        }),
{
    match classify_backend_switch(name, active, inactive, suspended, current, larger) {
        Err(error) => Err(error),
        Ok(action) => {
            if action == BackendSwitchAction::Finish {
                return Ok(SuspendAction::VerifyLarger);
            }
            if suspended {
                return Ok(SuspendAction::VerifyCurrent);
            }
            Ok(SuspendAction::Suspend)
        },
    }
}

/// Next step of replacing a backend.
#[derive(Clone, Copy, Debug, PartialEq, Eq, Structural)]
pub enum SwitchAction {
    /// The larger table is active and suspended: resume it.
    Resume,

    /// The larger table is active: verify it and finish.
    VerifyLarger,

    /// Load the larger table.
    Load,

    /// Put the loaded table in place, after suspending the mapping where it still runs.
    Activate {
        /// The mapping must be suspended first.
        suspend_first: bool,
    },
}

/// Next step of replacing a backend, or why its tables are none that a switch leaves.
pub open spec fn switch_step(
    name: Seq<char>,
    active: Seq<TargetView>,
    inactive: Seq<TargetView>,
    suspended: bool,
    current: SavedLinearLayout,
    larger: SavedLinearLayout,
) -> Result<SwitchAction, MappedErrorView> {
    match switch_state(name, active, inactive, suspended, current, larger) {
        Err(error) => Err(error),
        Ok(action) => Ok(
            match action {
                BackendSwitchAction::Finish => if suspended {
                    SwitchAction::Resume
                } else {
                    SwitchAction::VerifyLarger
                },
                BackendSwitchAction::LoadLarger => SwitchAction::Load,
                BackendSwitchAction::ActivateLarger => SwitchAction::Activate {
                    suspend_first: !suspended,
                },
            },
        ),
    }
}

/// Decides the next step of switching one exact active layout to a strictly larger backend.
pub fn switch_backend(
    name: &str,
    active: &[RawTarget],
    inactive: &[RawTarget],
    suspended: bool,
    current: SavedLinearLayout,
    larger: SavedLinearLayout,
) -> (out: Result<SwitchAction, MappedVolumeError>)
    ensures
        ({
            let step = switch_step(
                name@,
                table_view(active@),
                table_view(inactive@),
                suspended,
                current,
                larger,
            );
            match out {
                Ok(action) => step == Ok::<SwitchAction, MappedErrorView>(action),
                Err(error) => step == Err::<SwitchAction, MappedErrorView>(error@),
            }
        }),
{
    match classify_backend_switch(name, active, inactive, suspended, current, larger) {
        Err(error) => Err(error),
        Ok(action) => Ok(
            match action {
                BackendSwitchAction::Finish => {
                    if suspended {
                        SwitchAction::Resume
                    } else {
                        SwitchAction::VerifyLarger
                    }
                },
                BackendSwitchAction::LoadLarger => SwitchAction::Load,
                BackendSwitchAction::ActivateLarger => SwitchAction::Activate {
                    suspend_first: !suspended,
                },
            },
        ),
    }
}

/// Why saved candidates do not describe one mapped volume.
pub open spec fn candidates_error(candidates: Seq<LayoutView>) -> Option<MappedErrorView> {
    if exists|i: int|
        #![trigger candidates[i]]
        0 <= i < candidates.len() && (candidates[i].node_id != candidates[0].node_id
            || candidates[i].key != candidates[0].key || candidates[i].block_sizes
            != candidates[0].block_sizes) {
        Some(
            MappedErrorView::WrongLayout {
                name: candidates[0].name(),
                reason: "saved layout candidates do not describe one mapped volume"@,
            },
        )
    } else {
        None
    }
}

/// Layouts as plain values.
pub open spec fn layout_views(layouts: Seq<MappedVolumeLayout>) -> Seq<LayoutView> {
    layouts.map_values(|layout: MappedVolumeLayout| layout@)
}

/// Checks that saved candidates describe one mapped volume.
pub fn check_candidates(candidates: &[MappedVolumeLayout]) -> (out: Result<(), MappedVolumeError>)
    ensures
        match out {
            Ok(()) => candidates_error(layout_views(candidates@)) is None,
            Err(error) => candidates_error(layout_views(candidates@)) == Some(error@),
        },
{
    let ghost all = layout_views(candidates@);
    let mut i: usize = 0;
    while i < candidates.len()
        invariant
            i <= candidates@.len(),
            all == layout_views(candidates@),
            forall|k: int|
                #![trigger all[k]]
                0 <= k < i ==> all[k].node_id == all[0].node_id && all[k].key == all[0].key
                    && all[k].block_sizes == all[0].block_sizes,
        decreases candidates@.len() - i,
    {
        proof {
            assert(all[i as int] == candidates@[i as int]@);
            assert(all[0] == candidates@[0]@);
        }
        let first = &candidates[0];
        let candidate = &candidates[i];
        if candidate.block_sizes() != first.block_sizes() || !candidate.identity().same(
            first.identity(),
        ) {
            return Err(
                wrong_layout(
                    first.name(),
                    "saved layout candidates do not describe one mapped volume",
                ),
            );
        }
        i += 1;
    }
    Ok(())
}

/// Place of the mapping that one of the saved candidates is active in, if there is one, or
/// why it cannot be used.
pub open spec fn active_place(
    candidates: Seq<LayoutView>,
    devices: Seq<MappingView>,
) -> Result<Option<int>, MappedErrorView> {
    if candidates.len() == 0 {
        Ok(None)
    } else if candidates_error(candidates) is Some {
        Err(candidates_error(candidates)->Some_0)
    } else if foreign_error(candidates[0].name(), candidates[0].uuid(), devices) is Some {
        Err(foreign_error(candidates[0].name(), candidates[0].uuid(), devices)->Some_0)
    } else {
        Ok(place_of_name(devices, candidates[0].name()))
    }
}

/// Finds the mapping whose tables tell which saved candidate is active.
pub fn active_layout(candidates: &[MappedVolumeLayout], devices: &[KernelMapping]) -> (out: Result<
    Option<usize>,
    MappedVolumeError,
>)
    ensures
        ({
            let place = active_place(layout_views(candidates@), mapping_views(devices@));
            match out {
                Ok(Some(at)) => place == Ok::<Option<int>, MappedErrorView>(Some(at as int)) && at
                    < devices@.len(),
                Ok(None) => place == Ok::<Option<int>, MappedErrorView>(None),
                Err(error) => place == Err::<Option<int>, MappedErrorView>(error@),
            }
        }),
{
    if candidates.len() == 0 {
        return Ok(None);
    }
    proof { assert(layout_views(candidates@)[0] == candidates@[0]@); }
    if let Err(error) = check_candidates(candidates) {
        return Err(error);
    }
    find_own(candidates[0].identity(), devices)
}

/// Bytes of a path given as text.
pub open spec fn path_bytes(path: Seq<char>) -> Seq<u8> {
    encode_utf8(path)
}

/// Reports a failed block-device check.
fn block_device_error(path: &str, message: String) -> (out: MappedVolumeError)
    ensures
        out@ == (MappedErrorView::BlockDevice { path: path_bytes(path@), message: message@ }),
{
    MappedVolumeError::BlockDevice { path: copy_bytes(path.as_bytes()), message }
}

/// Why the text of a kernel setting is no number.
pub open spec fn setting_error(path: Seq<u8>, text: Seq<char>) -> Option<MappedErrorView> {
    match decimal_failure(trimmed(text)) {
        Some(failure) => Some(
            MappedErrorView::BlockDevice {
                path,
                message: "invalid decimal value: "@ + failure.text(),
            },
        ),
        None => None,
    }
}

/// Reads one decimal kernel setting from the text of its file.
pub fn read_setting(path: &[u8], text: &str) -> (out: Result<u64, MappedVolumeError>)
    ensures
        match out {
            Ok(value) => setting_error(path@, text@) is None && decimal_value(trimmed(text@))
                == Some(value as nat),
            Err(error) => setting_error(path@, text@) == Some(error@),
        },
{
    let digits = chars_of(trim_text(text).as_str());
    match read_decimal(&digits) {
        Ok(value) => Ok(value),
        Err(failure) => {
            let mut message = String::new();
            push_text(&mut message, "invalid decimal value: ");
            push_text(&mut message, failure.message());
            proof {
                assert(message@ =~= "invalid decimal value: "@ + failure.text());
            }
            Err(MappedVolumeError::BlockDevice { path: copy_bytes(path), message })
        },
    }
}

/// Why the mapped path does not name the mapped device.
pub open spec fn number_error(
    layout: LayoutView,
    actual: BlockDeviceNumber,
    expected: BlockDeviceNumber,
) -> Option<MappedErrorView> {
    if actual != expected {
        Some(
            MappedErrorView::BlockDevice {
                path: path_bytes(layout.path()),
                message: "device number is "@ + actual.text() + ", expected "@ + expected.text(),
            },
        )
    } else {
        None
    }
}

/// Checks that the mapped path names the mapped device.
pub fn verify_mapped_number(
    layout: &MappedVolumeLayout,
    actual: BlockDeviceNumber,
    expected: BlockDeviceNumber,
) -> (out: Result<(), MappedVolumeError>)
    ensures
        match out {
            Ok(()) => number_error(layout@, actual, expected) is None,
            Err(error) => number_error(layout@, actual, expected) == Some(error@),
        },
{
    if actual != expected {
        let mut message = String::new();
        push_text(&mut message, "device number is ");
        push_text(&mut message, actual.to_text().as_str());
        push_text(&mut message, ", expected ");
        push_text(&mut message, expected.to_text().as_str());
        proof {
            assert(message@ =~= "device number is "@ + actual.text() + ", expected "@
                + expected.text());
        }
        return Err(block_device_error(layout.expected_path(), message));
    }
    Ok(())
}

/// Queue limit that a mapped device inherits.
#[derive(Clone, Copy, Debug, PartialEq, Eq, Structural)]
pub enum QueueLimit {
    /// Logical sector size.
    LogicalBlock,

    /// Physical block size.
    PhysicalBlock,

    /// Smallest efficient request.
    MinimumIo,
}

impl QueueLimit {
    /// Name of the limit below the directory of a block device.
    pub open spec fn file(self) -> Seq<char> {
        match self {
            QueueLimit::LogicalBlock => "/queue/logical_block_size"@,
            QueueLimit::PhysicalBlock => "/queue/physical_block_size"@,
            QueueLimit::MinimumIo => "/queue/minimum_io_size"@,
        }
    }

    /// Returns the path of the limit of a block device.
    pub fn path(self, device: BlockDeviceNumber) -> (out: String)
        ensures
            out@ == "/sys/dev/block/"@ + device.text() + self.file(),
    {
        let mut out = copy_text("/sys/dev/block/");
        push_text(&mut out, device.to_text().as_str());
        match self {
            QueueLimit::LogicalBlock => push_text(&mut out, "/queue/logical_block_size"),
            QueueLimit::PhysicalBlock => push_text(&mut out, "/queue/physical_block_size"),
            QueueLimit::MinimumIo => push_text(&mut out, "/queue/minimum_io_size"),
        }
        proof { assert(out@ =~= "/sys/dev/block/"@ + device.text() + self.file()); }
        out
    }
}

/// Why the mapped device does not have the capacity of its layout.
pub open spec fn size_error(layout: LayoutView, capacity_sectors: u64) -> Option<MappedErrorView> {
    if capacity_sectors * DEVICE_MAPPER_SECTOR_BYTES > u64::MAX {
        Some(
            MappedErrorView::BlockDevice {
                path: path_bytes(layout.path()),
                message: "kernel capacity overflows u64 bytes"@,
            },
        )
    } else if capacity_sectors * DEVICE_MAPPER_SECTOR_BYTES != layout.capacity_bytes {
        Some(
            MappedErrorView::BlockDevice {
                path: path_bytes(layout.path()),
                message: "capacity is "@ + decimal_text(
                    (capacity_sectors * DEVICE_MAPPER_SECTOR_BYTES) as nat,
                ) + " bytes, expected "@ + decimal_text(layout.capacity_bytes as nat),
            },
        )
    } else {
        None
    }
}

/// Checks that the mapped device has the capacity of its layout.
pub fn verify_mapped_size(layout: &MappedVolumeLayout, capacity_sectors: u64) -> (out: Result<
    (),
    MappedVolumeError,
>)
    ensures
        match out {
            Ok(()) => size_error(layout@, capacity_sectors) is None,
            Err(error) => size_error(layout@, capacity_sectors) == Some(error@),
        },
{
    let capacity_bytes: u64 = match capacity_sectors.checked_mul(DEVICE_MAPPER_SECTOR_BYTES) {
        Some(capacity_bytes) => capacity_bytes,
        None => {
            return Err(
                block_device_error(
                    layout.expected_path(),
                    copy_text("kernel capacity overflows u64 bytes"),
                ),
            );
        },
    };
    if capacity_bytes != layout.capacity_bytes() {
        let mut message = String::new();
        push_text(&mut message, "capacity is ");
        push_decimal(&mut message, capacity_bytes);
        push_text(&mut message, " bytes, expected ");
        push_decimal(&mut message, layout.capacity_bytes());
        proof {
            assert(message@ =~= "capacity is "@ + decimal_text(capacity_bytes as nat)
                + " bytes, expected "@ + decimal_text(layout@.capacity_bytes as nat));
        }
        return Err(block_device_error(layout.expected_path(), message));
    }
    Ok(())
}

/// Checks one inherited queue limit exposed by the mapped device. All block sizes of a
/// volume are the required one.
pub fn verify_mapped_limit(
    layout: &MappedVolumeLayout,
    device: BlockDeviceNumber,
    limit: QueueLimit,
    actual: u64,
) -> (out: Result<(), MappedVolumeError>)
    ensures
        match out {
            Ok(()) => actual == REQUIRED_BLOCK_BYTES,
            Err(error) => actual != REQUIRED_BLOCK_BYTES && error@ == (
            MappedErrorView::BlockDevice {
                path: path_bytes("/sys/dev/block/"@ + device.text() + limit.file()),
                message: "value is "@ + decimal_text(actual as nat) + ", expected "@ + decimal_text(
                    REQUIRED_BLOCK_BYTES as nat,
                ),
            }),
        },
{
    let sizes = layout.block_sizes();
    let expected: u32 = match limit {
        QueueLimit::LogicalBlock => sizes.logical_sector().bytes(),
        QueueLimit::PhysicalBlock => sizes.physical_block().bytes(),
        QueueLimit::MinimumIo => sizes.minimum_io().bytes(),
    };
    if actual != expected as u64 {
        let mut message = String::new();
        push_text(&mut message, "value is ");
        push_decimal(&mut message, actual);
        push_text(&mut message, ", expected ");
        push_decimal(&mut message, expected as u64);
        proof {
            assert(message@ =~= "value is "@ + decimal_text(actual as nat) + ", expected "@
                + decimal_text(expected as nat));
        }
        return Err(block_device_error(limit.path(device).as_str(), message));
    }
    Ok(())
}

/// Host facility that mapped volumes need.
#[derive(Clone, Copy, Debug, PartialEq, Eq, Structural)]
pub enum HostFacility {
    /// The control device is a character device.
    Control,

    /// The udev control is a Unix socket.
    Udev,

    /// The kernel provides the linear target.
    LinearTarget,
}

/// Checks one host facility that was looked up.
pub fn require_feature(facility: HostFacility, present: bool) -> (out: Result<
    (),
    MappedVolumeError,
>)
    ensures
        match out {
            Ok(()) => present,
            Err(error) => !present && error@ == (MappedErrorView::Unavailable {
                reason: match facility {
                    HostFacility::Control => "/dev/mapper/control is not a character device"@,
                    HostFacility::Udev => "/run/udev/control is not a Unix socket"@,
                    HostFacility::LinearTarget =>
                        "the kernel does not provide the dm-linear target"@,
                },
            }),
        },
{
    if present {
        return Ok(());
    }
    let reason = match facility {
        HostFacility::Control => copy_text("/dev/mapper/control is not a character device"),
        HostFacility::Udev => copy_text("/run/udev/control is not a Unix socket"),
        HostFacility::LinearTarget => copy_text("the kernel does not provide the dm-linear target"),
    };
    Err(MappedVolumeError::Unavailable { reason })
}

/// Each round that is not the last step of a switch brings the mapping forward: a loaded
/// table follows the old one, and the larger table follows the loaded one.
pub proof fn law_switch_step_follows_state(
    name: Seq<char>,
    active: Seq<TargetView>,
    inactive: Seq<TargetView>,
    suspended: bool,
    current: SavedLinearLayout,
    larger: SavedLinearLayout,
)
    ensures
        switch_step(name, active, inactive, suspended, current, larger) matches Ok(action) ==> {
            &&& action is VerifyLarger ==> !suspended && super::mapped_tables::is_table_of(
                active,
                larger,
            ) && inactive.len() == 0
            &&& action is Load ==> super::mapped_tables::is_table_of(active, current)
                && inactive.len() == 0
            &&& action is Activate ==> super::mapped_tables::is_table_of(active, current)
                && super::mapped_tables::is_table_of(inactive, larger)
        },
{
}

} // verus!
