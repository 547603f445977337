//! Bounded control state for one replicated-volume generation.
//!
//! This module deliberately contains only facts that require consensus. Local
//! devices, mounts, filesystem work, copy progress, and cleanup remain outside
//! the control state and are rediscovered by reconcilers.

use vstd::prelude::*;

use super::control_rules::{
    expectation_failure, fence_of, has_data, invariant_error, is_done, is_generation, is_valid,
    planned, replacement_copies, replacement_fits,
};
use super::copies::CopySet;
use super::descriptor::{VolumeCapacity, VolumeDescriptor};
use super::identity::{
    DriverSessionId, FenceEpoch, RecoveryId, ReplacementId, VolumeGeneration, VolumeNodeId,
};
use crate::text::push_text;

verus! {

/// Whether one retained-capable volume generation may receive writer grants.
#[derive(Clone, Copy, Debug, PartialEq, Eq, Structural)]
pub enum VolumeDisposition {
    /// The generation may receive writer grants.
    Live,

    /// Data is preserved, but writer grants are forbidden until restoration.
    Retained,
}

impl Default for VolumeDisposition {
    /// Returns the disposition of a fresh generation.
    fn default() -> (out: Self)
        ensures
            out == VolumeDisposition::Live,
    {
        VolumeDisposition::Live
    }
}

/// The only session allowed to issue foreground data operations.
#[derive(Clone, Copy, Debug, PartialEq, Eq, Structural)]
pub struct WriterGrant {
    /// Node that owns the writer session.
    pub node_id: VolumeNodeId,

    /// Locally durable driver creation attempt.
    pub session_id: DriverSessionId,
}

/// Authorization to align selected copies from one canonical survivor.
#[derive(Debug, PartialEq, Eq)]
pub struct RecoveryGrant {
    /// Stable identity retained only while this recovery is authorized.
    pub id: RecoveryId,

    /// Node responsible for performing the recovery copy.
    pub coordinator_node_id: VolumeNodeId,

    /// Existing active copy selected as the canonical data image.
    pub source_node_id: VolumeNodeId,

    /// Two or three active voters that must be aligned before serving.
    pub target_node_ids: CopySet,
}

/// Model of a recovery authorization.
pub struct RecoveryView {
    pub id: RecoveryId,
    pub coordinator_node_id: VolumeNodeId,
    pub source_node_id: VolumeNodeId,
    pub target_node_ids: Set<VolumeNodeId>,
}

impl View for RecoveryGrant {
    type V = RecoveryView;

    open spec fn view(&self) -> RecoveryView {
        RecoveryView {
            id: self.id,
            coordinator_node_id: self.coordinator_node_id,
            source_node_id: self.source_node_id,
            target_node_ids: self.target_node_ids@,
        }
    }
}

impl Clone for RecoveryGrant {
    fn clone(&self) -> (out: Self)
        ensures
            out@ == self@,
    {
        RecoveryGrant {
            id: self.id,
            coordinator_node_id: self.coordinator_node_id,
            source_node_id: self.source_node_id,
            target_node_ids: self.target_node_ids.clone(),
        }
    }
}

impl RecoveryGrant {
    /// Returns whether both authorizations are the same.
    pub fn same(&self, other: &RecoveryGrant) -> (out: bool)
        ensures
            out == (self@ == other@),
    {
        self.id == other.id && self.coordinator_node_id == other.coordinator_node_id
            && self.source_node_id == other.source_node_id && self.target_node_ids.same(
            &other.target_node_ids,
        )
    }
}

/// Authorization for one learner to replace or restore one replica.
#[derive(Clone, Copy, Debug, PartialEq, Eq)]
pub struct ReplacementGrant {
    /// Stable identity retained only while this replacement is authorized.
    pub id: ReplacementId,

    /// Node responsible for coordinating copy and membership observations.
    pub coordinator_node_id: VolumeNodeId,

    /// Voter being replaced, or none when restoring an existing third voter.
    pub old_node_id: Option<VolumeNodeId>,

    /// Inactive target that may become an active data copy after adoption.
    pub new_node_id: VolumeNodeId,

    /// Active copy from which the target data image is built.
    pub source_node_id: VolumeNodeId,
}

impl ReplacementGrant {
    /// Returns whether both authorizations are the same.
    pub fn same(&self, other: &ReplacementGrant) -> (out: bool)
        ensures
            out == (*self == *other),
    {
        self.id == other.id && self.coordinator_node_id == other.coordinator_node_id && same_node(
            self.old_node_id,
            other.old_node_id,
        ) && self.new_node_id == other.new_node_id && self.source_node_id == other.source_node_id
    }
}

/// Data-plane facts published to every local request admission gate.
#[derive(Debug, PartialEq, Eq)]
pub struct DataControlState {
    /// Monotonic value that rejects every older data operation.
    pub fence: FenceEpoch,

    /// Two or three copies required to acknowledge foreground durability.
    pub copies: CopySet,

    /// Exact foreground writer, or none while fenced.
    pub writer: Option<WriterGrant>,

    /// Exact recovery authorization, or none during ordinary operation.
    pub recovery: Option<RecoveryGrant>,
}

/// Model of the data-plane facts.
pub struct DataView {
    pub fence: FenceEpoch,
    pub copies: Set<VolumeNodeId>,
    pub writer: Option<WriterGrant>,
    pub recovery: Option<RecoveryView>,
}

/// Model of an optional recovery authorization.
pub open spec fn recovery_view(recovery: Option<RecoveryGrant>) -> Option<RecoveryView> {
    match recovery {
        Some(grant) => Some(grant@),
        None => None,
    }
}

impl View for DataControlState {
    type V = DataView;

    open spec fn view(&self) -> DataView {
        DataView {
            fence: self.fence,
            copies: self.copies@,
            writer: self.writer,
            recovery: recovery_view(self.recovery),
        }
    }
}

impl Clone for DataControlState {
    fn clone(&self) -> (out: Self)
        ensures
            out@ == self@,
    {
        DataControlState {
            fence: self.fence,
            copies: self.copies.clone(),
            writer: self.writer,
            recovery: match &self.recovery {
                Some(grant) => Some(grant.clone()),
                None => None,
            },
        }
    }
}

/// Complete bounded application state of one volume group.
#[derive(Debug, PartialEq, Eq)]
pub struct VolumeControlState {
    pub descriptor: Option<VolumeDescriptor>,
    pub revision: u64,
    pub disposition: VolumeDisposition,
    pub data: Option<DataControlState>,
    pub replacement: Option<ReplacementGrant>,
}

/// Model of the control state.
pub struct ControlView {
    pub descriptor: Option<VolumeDescriptor>,
    pub revision: u64,
    pub disposition: VolumeDisposition,
    pub data: Option<DataView>,
    pub replacement: Option<ReplacementGrant>,
}

/// Model of optional data-plane facts.
pub open spec fn data_view(data: Option<DataControlState>) -> Option<DataView> {
    match data {
        Some(data) => Some(data@),
        None => None,
    }
}

impl View for VolumeControlState {
    type V = ControlView;

    open spec fn view(&self) -> ControlView {
        ControlView {
            descriptor: self.descriptor,
            revision: self.revision,
            disposition: self.disposition,
            data: data_view(self.data),
            replacement: self.replacement,
        }
    }
}

impl Clone for VolumeControlState {
    fn clone(&self) -> (out: Self)
        ensures
            out@ == self@,
    {
        VolumeControlState {
            descriptor: self.descriptor,
            revision: self.revision,
            disposition: self.disposition,
            data: match &self.data {
                Some(data) => Some(data.clone()),
                None => None,
            },
            replacement: self.replacement,
        }
    }
}

impl Default for VolumeControlState {
    /// Creates the only valid state before the initialization command applies.
    fn default() -> (out: Self)
        ensures
            out@ == (ControlView {
                descriptor: None,
                revision: 0,
                disposition: VolumeDisposition::Live,
                data: None,
                replacement: None,
            }),
    {
        VolumeControlState {
            descriptor: None,
            revision: 0,
            disposition: VolumeDisposition::Live,
            data: None,
            replacement: None,
        }
    }
}

/// Returns whether both optional nodes are the same.
fn same_node(a: Option<VolumeNodeId>, b: Option<VolumeNodeId>) -> (out: bool)
    ensures
        out == (a == b),
{
    match (a, b) {
        (Some(x), Some(y)) => x == y,
        (None, None) => true,
        _ => false,
    }
}

/// Returns whether both optional writers are the same.
fn same_writer(a: Option<WriterGrant>, b: Option<WriterGrant>) -> (out: bool)
    ensures
        out == (a == b),
{
    match (a, b) {
        (Some(x), Some(y)) => x == y,
        (None, None) => true,
        _ => false,
    }
}

/// Compare-and-set fields shared by commands after initialization.
#[derive(Clone, Copy, Debug, PartialEq, Eq, Structural)]
pub struct ExpectedVolumeRevision {
    /// Destructive generation the command is allowed to change.
    pub generation: VolumeGeneration,

    /// Exact bounded control state revision observed by the caller.
    pub revision: u64,
}

/// Initializes one pristine group with exactly three active copies.
#[derive(Clone, Debug, PartialEq, Eq)]
pub struct InitializeVolume {
    /// Immutable descriptor shared by every replica and request.
    pub descriptor: VolumeDescriptor,

    /// Exact three-node set used for common bootstrap.
    pub initial_copies: CopySet,
}

/// Changes whether the generation is live or retained.
#[derive(Clone, Copy, Debug, PartialEq, Eq)]
pub struct SetVolumeDisposition {
    /// Expected volume revision against which this change was selected.
    pub expected: ExpectedVolumeRevision,

    /// Requested generation disposition.
    pub disposition: VolumeDisposition,
}

/// Grants foreground writer grant after recovery grant is absent.
#[derive(Clone, Copy, Debug, PartialEq, Eq)]
pub struct GrantVolumeWriter {
    /// Expected volume revision against which this writer was selected.
    pub expected: ExpectedVolumeRevision,

    /// Exact local session receiving the next data fence.
    pub writer: WriterGrant,
}

/// Revokes one exact foreground session without waiting for local cleanup.
#[derive(Clone, Copy, Debug, PartialEq, Eq)]
pub struct FenceVolumeWriter {
    /// Expected volume revision against which this revocation was selected.
    pub expected: ExpectedVolumeRevision,

    /// Exact writer that must still be current.
    pub writer: WriterGrant,
}

/// Fences foreground I/O and authorizes canonical-image recovery.
#[derive(Clone, Debug, PartialEq, Eq)]
pub struct BeginVolumeRecovery {
    /// Expected volume revision against which recovery was selected.
    pub expected: ExpectedVolumeRevision,

    /// Exact writer being revoked, or none if already fenced.
    pub expected_writer: Option<WriterGrant>,

    /// Exact prior recovery replaced by this authorization, when any.
    pub replaced_recovery_id: Option<RecoveryId>,

    /// New bounded recovery grant.
    pub recovery: RecoveryGrant,
}

/// Revokes a recovery grant after every selected copy is durable.
#[derive(Clone, Copy, Debug, PartialEq, Eq)]
pub struct RevokeVolumeRecovery {
    /// Expected volume revision after local recovery work completed.
    pub expected: ExpectedVolumeRevision,

    /// Exact recovery grant whose permits must be revoked.
    pub recovery_id: RecoveryId,
}

/// Authorizes one prepared learner and data-copy replacement.
#[derive(Clone, Copy, Debug, PartialEq, Eq)]
pub struct BeginReplicaReplacement {
    /// Expected volume revision against which replacement was selected.
    pub expected: ExpectedVolumeRevision,

    /// New bounded replacement grant.
    pub replacement: ReplacementGrant,
}

/// Removes one exact replacement authorization.
#[derive(Clone, Copy, Debug, PartialEq, Eq)]
pub struct CancelReplicaReplacement {
    /// Expected volume revision against which cancellation was selected.
    pub expected: ExpectedVolumeRevision,

    /// Replacement that must still be current.
    pub replacement_id: ReplacementId,
}

/// Atomically adopts one rebuilt copy and advances the data fence.
#[derive(Clone, Debug, PartialEq, Eq)]
pub struct AdoptReplicaReplacement {
    /// Expected volume revision against which adoption was selected.
    pub expected: ExpectedVolumeRevision,

    /// Replacement whose target has been fully verified.
    pub replacement_id: ReplacementId,

    /// Exact resulting three-copy set checked against current membership.
    pub new_copies: CopySet,

    /// Exact writer preserved across adoption, or none while detached.
    pub expected_writer: Option<WriterGrant>,
}

/// Grows the logical capacity of a quiet live generation.
#[derive(Clone, Copy, Debug, PartialEq, Eq)]
pub struct ExpandVolume {
    /// Expected volume revision against which the expansion was selected.
    pub expected: ExpectedVolumeRevision,

    /// Exact capacity after the expansion.
    pub target_capacity: VolumeCapacity,
}

/// One bounded semantic control-state change.
#[derive(Clone, Debug, PartialEq, Eq)]
pub enum VolumeCommand {
    /// Initializes a pristine group.
    Initialize(InitializeVolume),

    /// Changes the generation disposition.
    SetDisposition(SetVolumeDisposition),

    /// Grants one exact writer session.
    GrantWriter(GrantVolumeWriter),

    /// Revokes one exact writer session.
    FenceWriter(FenceVolumeWriter),

    /// Selects canonical recovery grant.
    BeginRecovery(BeginVolumeRecovery),

    /// Revokes one durably completed recovery grant.
    RevokeRecovery(RevokeVolumeRecovery),

    /// Starts one bounded replica replacement.
    BeginReplacement(BeginReplicaReplacement),

    /// Cancels one unusable replacement.
    CancelReplacement(CancelReplicaReplacement),

    /// Adopts one fully built replacement copy.
    AdoptReplacement(AdoptReplicaReplacement),

    /// Grows the logical capacity.
    Expand(ExpandVolume),
}

/// Reason a semantic command cannot change current control state.
#[derive(Clone, Copy, Debug, PartialEq, Eq, Structural)]
pub enum VolumeCommandRejection {
    /// The group has no committed descriptor or data control state.
    NotInitialized,

    /// Initialization already committed different or subsequently changed state.
    AlreadyInitialized,

    /// The command targets another destructive generation.
    WrongGeneration,

    /// Only a live generation can receive operational grants.
    VolumeNotLive,

    /// A writer is outside the active data-copy set.
    WriterOutsideCopySet,

    /// The named writer is not current.
    WrongWriter,

    /// The selected active-copy set is not two or three valid nodes.
    InvalidCopySet,

    /// The recovery selection violates current data control state.
    InvalidRecovery,

    /// Another recovery remains authorized.
    RecoveryInProgress,

    /// No recovery exists to complete or replace.
    NoRecovery,

    /// The named recovery is not current.
    WrongRecovery,

    /// A recovery ID was reused with different immutable fields.
    RecoveryIdConflict,

    /// The replacement selection violates current data control state.
    InvalidReplacement,

    /// Another replacement remains authorized.
    ReplacementInProgress,

    /// No replacement exists to cancel or adopt.
    NoReplacement,

    /// The named replacement is not current.
    WrongReplacement,

    /// A replacement ID was reused with different immutable fields.
    ReplacementIdConflict,

    /// An expansion may not make the volume smaller.
    CapacityCannotShrink,

    /// The requested capacity is no whole number of blocks.
    CapacityNotAligned,

    /// No larger control revision can be represented.
    RevisionExhausted,

    /// No larger data-plane fence can be represented.
    FenceExhausted,
}

/// Deterministic result of evaluating one committed control state command.
#[derive(Clone, Copy, Debug, PartialEq, Eq)]
pub enum VolumeCommandResponse {
    /// The command changed control state and the returned state must be persisted.
    Applied {
        /// New control revision.
        revision: u64,

        /// New or current fence after the transition.
        fence: Option<FenceEpoch>,
    },

    /// The exact semantic postcondition already holds.
    Current {
        /// Current control revision, which is not changed by a retry.
        revision: u64,

        /// Current fence after the earlier or later equivalent effect.
        fence: Option<FenceEpoch>,
    },

    /// The caller observed an older revision and must reread control state.
    Conflict {
        /// Current revision that made the compare-and-set fail.
        current_revision: u64,
    },

    /// The command is invalid for current control state and made no state change.
    Rejected(VolumeCommandRejection),
}

/// Pure state and response produced before the durable apply boundary.
#[derive(Clone, Debug, PartialEq, Eq)]
pub struct CommandPlan {
    /// Complete next state, unchanged for current, conflict, and rejection.
    pub state: VolumeControlState,

    /// Deterministic response returned to the caller.
    pub response: VolumeCommandResponse,
}

/// Model of a plan.
pub struct PlanView {
    pub state: ControlView,
    pub response: VolumeCommandResponse,
}

impl View for CommandPlan {
    type V = PlanView;

    open spec fn view(&self) -> PlanView {
        PlanView { state: self.state@, response: self.response }
    }
}

/// Returns the only copy set one replacement grant may adopt.
fn replacement_copy_set(current: &CopySet, replacement: ReplacementGrant) -> (out: CopySet)
    ensures
        out@ == replacement_copies(current@, replacement),
{
    let mut expected = current.clone();
    if let Some(old_node_id) = replacement.old_node_id {
        expected.remove(&old_node_id);
    }
    expected.insert(replacement.new_node_id);
    expected
}

/// Checks that adoption adds one built target and removes at most its old copy.
fn valid_adoption(current: &CopySet, replacement: ReplacementGrant, next: &CopySet) -> (out: bool)
    ensures
        out == (next@.len() == 3 && next@.contains(replacement.new_node_id) && next@
            == replacement_copies(current@, replacement)),
{
    if next.len() != 3 || !next.contains(&replacement.new_node_id) {
        return false;
    }
    replacement_copy_set(current, replacement).same(next)
}

impl VolumeControlState {
    /// Reconstructs one decoded snapshot only after all invariants validate.
    pub fn from_parts(
        descriptor: Option<VolumeDescriptor>,
        revision: u64,
        disposition: VolumeDisposition,
        data: Option<DataControlState>,
        replacement: Option<ReplacementGrant>,
    ) -> (out: Result<Self, VolumeControlStateInvariantError>)
        ensures
            ({
                let state = ControlView {
                    descriptor,
                    revision,
                    disposition,
                    data: data_view(data),
                    replacement,
                };
                match out {
                    Ok(built) => is_valid(state) && built@ == state,
                    Err(error) => invariant_error(state) == Some(error),
                }
            }),
    {
        let state = VolumeControlState { descriptor, revision, disposition, data, replacement };
        match state.validate() {
            Ok(()) => Ok(state),
            Err(error) => Err(error),
        }
    }

    /// Returns the immutable descriptor after initialization.
    #[must_use]
    pub fn descriptor(&self) -> (out: Option<&VolumeDescriptor>)
        ensures
            match out {
                Some(descriptor) => self@.descriptor == Some(*descriptor),
                None => self@.descriptor is None,
            },
    {
        self.descriptor.as_ref()
    }

    /// Returns the revision used by compare-and-set volume commands.
    #[must_use]
    pub fn revision(&self) -> (out: u64)
        ensures
            out == self@.revision,
    {
        self.revision
    }

    /// Returns whether the generation is live or retained.
    #[must_use]
    pub fn disposition(&self) -> (out: VolumeDisposition)
        ensures
            out == self@.disposition,
    {
        self.disposition
    }

    /// Returns current data control state after initialization.
    #[must_use]
    pub fn data(&self) -> (out: Option<&DataControlState>)
        ensures
            match out {
                Some(data) => self@.data == Some(data@),
                None => self@.data is None,
            },
    {
        self.data.as_ref()
    }

    /// Returns the one authorized replica replacement, when present.
    #[must_use]
    pub fn replacement(&self) -> (out: Option<ReplacementGrant>)
        ensures
            out == self@.replacement,
    {
        self.replacement
    }

    /// Validates every relationship that must hold in a persisted snapshot.
    pub fn validate(&self) -> (out: Result<(), VolumeControlStateInvariantError>)
        ensures
            match out {
                Ok(()) => is_valid(self@),
                Err(error) => invariant_error(self@) == Some(error),
            },
    {
        let data = match (&self.descriptor, &self.data) {
            (None, None) => {
                if self.revision != 0 || self.disposition != VolumeDisposition::Live
                    || self.replacement.is_some() {
                    return Err(VolumeControlStateInvariantError::InvalidUninitializedState);
                }
                return Ok(());
            },
            (Some(_), Some(data)) => data,
            _ => {
                return Err(VolumeControlStateInvariantError::DescriptorDataMismatch);
            },
        };
        if self.revision == 0 {
            return Err(VolumeControlStateInvariantError::ZeroInitializedRevision);
        }
        let count: usize = data.copies.len();
        if count < 2 || count > 3 {
            return Err(VolumeControlStateInvariantError::InvalidCopyCount);
        }
        if let Some(writer) = data.writer {
            if !data.copies.contains(&writer.node_id) {
                return Err(VolumeControlStateInvariantError::WriterOutsideCopySet);
            }
        }
        if let Some(recovery) = &data.recovery {
            if data.writer.is_some() || self.replacement.is_some() || recovery.coordinator_node_id
                != recovery.source_node_id || !recovery.target_node_ids.same(&data.copies)
                || !recovery.target_node_ids.contains(&recovery.source_node_id) {
                return Err(VolumeControlStateInvariantError::InvalidRecovery);
            }
        }
        if let Some(replacement) = self.replacement {
            if !fits_data(data, replacement) {
                return Err(VolumeControlStateInvariantError::InvalidReplacement);
            }
        }
        if self.disposition != VolumeDisposition::Live && (data.writer.is_some()
            || data.recovery.is_some() || self.replacement.is_some()) {
            return Err(VolumeControlStateInvariantError::GrantOnInactiveVolume);
        }
        Ok(())
    }

    /// Evaluates one committed semantic command without storing retry history.
    #[must_use]
    pub fn evaluate(&self, command: &VolumeCommand) -> (out: CommandPlan)
        requires
            has_data(self@),
        ensures
            out@ == planned(self@, *command),
    {
        match command {
            VolumeCommand::Initialize(command) => self.initialize(command),
            VolumeCommand::SetDisposition(command) => self.set_disposition(*command),
            VolumeCommand::GrantWriter(command) => self.grant_writer(*command),
            VolumeCommand::FenceWriter(command) => self.fence_writer(*command),
            VolumeCommand::BeginRecovery(command) => self.begin_recovery(command),
            VolumeCommand::RevokeRecovery(command) => self.revoke_recovery(*command),
            VolumeCommand::BeginReplacement(command) => self.begin_replacement(*command),
            VolumeCommand::CancelReplacement(command) => self.cancel_replacement(*command),
            VolumeCommand::AdoptReplacement(command) => self.adopt_replacement(command),
            VolumeCommand::Expand(command) => self.expand(*command),
        }
    }

    /// Applies the initialization postcondition or rejects a conflicting group.
    fn initialize(&self, command: &InitializeVolume) -> (out: CommandPlan)
        ensures
            out@ == planned(self@, VolumeCommand::Initialize(*command)),
    {
        if self.initialization_is_current(command) {
            return self.current();
        }
        if self.descriptor.is_some() {
            return self.rejected(VolumeCommandRejection::AlreadyInitialized);
        }
        if command.initial_copies.len() != 3 {
            return self.rejected(VolumeCommandRejection::InvalidCopySet);
        }
        let next = VolumeControlState {
            descriptor: Some(command.descriptor),
            revision: 1,
            disposition: VolumeDisposition::Live,
            data: Some(
                DataControlState {
                    fence: FenceEpoch::initial(),
                    copies: command.initial_copies.clone(),
                    writer: None,
                    recovery: None,
                },
            ),
            replacement: None,
        };
        CommandPlan::applied(next)
    }

    /// Changes the generation disposition without waiting for local cleanup.
    fn set_disposition(&self, command: SetVolumeDisposition) -> (out: CommandPlan)
        requires
            has_data(self@),
        ensures
            out@ == planned(self@, VolumeCommand::SetDisposition(command)),
    {
        if self.disposition == command.disposition && self.expected_generation_is_current(
            command.expected,
        ) {
            return self.current();
        }
        if let Some(plan) = self.check_expected(command.expected) {
            return plan;
        }
        let revision: u64 = match self.revision.checked_add(1) {
            Some(revision) => revision,
            None => {
                return self.rejected(VolumeCommandRejection::RevisionExhausted);
            },
        };
        let data = self.copied_data();
        if command.disposition != VolumeDisposition::Live {
            let fence = match data.fence.next() {
                Some(fence) => fence,
                None => {
                    return self.rejected(VolumeCommandRejection::FenceExhausted);
                },
            };
            return CommandPlan::applied(
                VolumeControlState {
                    descriptor: self.descriptor,
                    revision,
                    disposition: command.disposition,
                    data: Some(
                        DataControlState {
                            fence,
                            copies: data.copies,
                            writer: None,
                            recovery: None,
                        },
                    ),
                    replacement: None,
                },
            );
        }
        CommandPlan::applied(
            VolumeControlState {
                descriptor: self.descriptor,
                revision,
                disposition: command.disposition,
                data: Some(data),
                replacement: self.replacement,
            },
        )
    }

    /// Grants one exact saved driver session after all recovery is complete.
    fn grant_writer(&self, command: GrantVolumeWriter) -> (out: CommandPlan)
        requires
            has_data(self@),
        ensures
            out@ == planned(self@, VolumeCommand::GrantWriter(command)),
    {
        if self.expected_generation_is_current(command.expected) && self.has_writer(
            Some(command.writer),
        ) && !self.has_recovery() && self.disposition == VolumeDisposition::Live {
            return self.current();
        }
        if let Some(plan) = self.check_expected(command.expected) {
            return plan;
        }
        if self.disposition != VolumeDisposition::Live {
            return self.rejected(VolumeCommandRejection::VolumeNotLive);
        }
        if self.replacement.is_some() {
            return self.rejected(VolumeCommandRejection::ReplacementInProgress);
        }
        let data = self.copied_data();
        if !data.copies.contains(&command.writer.node_id) {
            return self.rejected(VolumeCommandRejection::WriterOutsideCopySet);
        }
        if data.recovery.is_some() {
            return self.rejected(VolumeCommandRejection::RecoveryInProgress);
        }
        let (revision, fence) = match self.next_revision_and_fence() {
            Some(next) => next,
            None => {
                return self.exhausted();
            },
        };
        CommandPlan::applied(
            VolumeControlState {
                descriptor: self.descriptor,
                revision,
                disposition: self.disposition,
                data: Some(
                    DataControlState {
                        fence,
                        copies: data.copies,
                        writer: Some(command.writer),
                        recovery: None,
                    },
                ),
                replacement: self.replacement,
            },
        )
    }

    /// Revokes the exact current writer and immediately advances its fence.
    fn fence_writer(&self, command: FenceVolumeWriter) -> (out: CommandPlan)
        requires
            has_data(self@),
        ensures
            out@ == planned(self@, VolumeCommand::FenceWriter(command)),
    {
        if self.expected_generation_is_current(command.expected) && self.has_writer(None) {
            return self.current();
        }
        if let Some(plan) = self.check_expected(command.expected) {
            return plan;
        }
        let data = self.copied_data();
        if !same_writer(data.writer, Some(command.writer)) {
            return self.rejected(VolumeCommandRejection::WrongWriter);
        }
        let (revision, fence) = match self.next_revision_and_fence() {
            Some(next) => next,
            None => {
                return self.exhausted();
            },
        };
        CommandPlan::applied(
            VolumeControlState {
                descriptor: self.descriptor,
                revision,
                disposition: self.disposition,
                data: Some(
                    DataControlState {
                        fence,
                        copies: data.copies,
                        writer: None,
                        recovery: data.recovery,
                    },
                ),
                replacement: self.replacement,
            },
        )
    }

    /// Fences foreground work and commits one canonical recovery selection.
    fn begin_recovery(&self, command: &BeginVolumeRecovery) -> (out: CommandPlan)
        requires
            has_data(self@),
        ensures
            out@ == planned(self@, VolumeCommand::BeginRecovery(*command)),
    {
        if self.expected_generation_is_current(command.expected) && self.has_writer(None)
            && self.is_recovering(&command.recovery) && self.replacement.is_none() {
            return self.current();
        }
        if let Some(plan) = self.check_expected(command.expected) {
            return plan;
        }
        if self.disposition != VolumeDisposition::Live {
            return self.rejected(VolumeCommandRejection::VolumeNotLive);
        }
        if self.replacement.is_some() {
            return self.rejected(VolumeCommandRejection::ReplacementInProgress);
        }
        let data = self.copied_data();
        if !same_writer(data.writer, command.expected_writer) {
            return self.rejected(VolumeCommandRejection::WrongWriter);
        }
        match (&data.recovery, command.replaced_recovery_id) {
            (None, None) => {},
            (Some(current), replaced) => {
                if current.id == command.recovery.id {
                    return self.rejected(VolumeCommandRejection::RecoveryIdConflict);
                }
                let replaces = match replaced {
                    Some(id) => current.id == id,
                    None => false,
                };
                if !replaces {
                    return self.rejected(VolumeCommandRejection::RecoveryInProgress);
                }
            },
            (None, Some(_)) => {
                return self.rejected(VolumeCommandRejection::NoRecovery);
            },
        }
        let count: usize = command.recovery.target_node_ids.len();
        if count < 2 || count > 3 || command.recovery.coordinator_node_id
            != command.recovery.source_node_id || !command.recovery.target_node_ids.contains(
            &command.recovery.source_node_id,
        ) || !data.copies.contains(&command.recovery.source_node_id)
            || !command.recovery.target_node_ids.is_subset(&data.copies) {
            return self.rejected(VolumeCommandRejection::InvalidRecovery);
        }
        let (revision, fence) = match self.next_revision_and_fence() {
            Some(next) => next,
            None => {
                return self.exhausted();
            },
        };
        CommandPlan::applied(
            VolumeControlState {
                descriptor: self.descriptor,
                revision,
                disposition: self.disposition,
                data: Some(
                    DataControlState {
                        fence,
                        copies: command.recovery.target_node_ids.clone(),
                        writer: None,
                        recovery: Some(command.recovery.clone()),
                    },
                ),
                replacement: None,
            },
        )
    }

    /// Revokes one completed recovery grant without manufacturing a writer.
    fn revoke_recovery(&self, command: RevokeVolumeRecovery) -> (out: CommandPlan)
        requires
            has_data(self@),
        ensures
            out@ == planned(self@, VolumeCommand::RevokeRecovery(command)),
    {
        if self.expected_generation_is_current(command.expected) && !self.has_recovery() {
            return self.current();
        }
        if let Some(plan) = self.check_expected(command.expected) {
            return plan;
        }
        if self.disposition != VolumeDisposition::Live {
            return self.rejected(VolumeCommandRejection::VolumeNotLive);
        }
        let data = self.copied_data();
        match &data.recovery {
            Some(recovery) => {
                if recovery.id != command.recovery_id {
                    return self.rejected(VolumeCommandRejection::WrongRecovery);
                }
            },
            None => {
                return self.rejected(VolumeCommandRejection::NoRecovery);
            },
        }
        let revision: u64 = match self.revision.checked_add(1) {
            Some(revision) => revision,
            None => {
                return self.rejected(VolumeCommandRejection::RevisionExhausted);
            },
        };
        CommandPlan::applied(
            VolumeControlState {
                descriptor: self.descriptor,
                revision,
                disposition: self.disposition,
                data: Some(
                    DataControlState {
                        fence: data.fence,
                        copies: data.copies,
                        writer: data.writer,
                        recovery: None,
                    },
                ),
                replacement: self.replacement,
            },
        )
    }

    /// Commits one bounded learner and data-copy replacement authorization.
    fn begin_replacement(&self, command: BeginReplicaReplacement) -> (out: CommandPlan)
        requires
            has_data(self@),
        ensures
            out@ == planned(self@, VolumeCommand::BeginReplacement(command)),
    {
        let replacement = command.replacement;
        let is_current = match &self.replacement {
            Some(current) => current.same(&replacement),
            None => false,
        };
        if self.expected_generation_is_current(command.expected) && is_current {
            return self.current();
        }
        if let Some(plan) = self.check_expected(command.expected) {
            return plan;
        }
        if self.disposition != VolumeDisposition::Live {
            return self.rejected(VolumeCommandRejection::VolumeNotLive);
        }
        let data = self.copied_data();
        if data.recovery.is_some() {
            return self.rejected(VolumeCommandRejection::RecoveryInProgress);
        }
        if let Some(current) = self.replacement {
            if current.id == replacement.id {
                return self.rejected(VolumeCommandRejection::ReplacementIdConflict);
            }
            return self.rejected(VolumeCommandRejection::ReplacementInProgress);
        }
        if !fits_data(&data, replacement) {
            return self.rejected(VolumeCommandRejection::InvalidReplacement);
        }
        let revision: u64 = match self.revision.checked_add(1) {
            Some(revision) => revision,
            None => {
                return self.rejected(VolumeCommandRejection::RevisionExhausted);
            },
        };
        CommandPlan::applied(
            VolumeControlState {
                descriptor: self.descriptor,
                revision,
                disposition: self.disposition,
                data: Some(data),
                replacement: Some(replacement),
            },
        )
    }

    /// Cancels one exact replacement without retaining its local progress.
    fn cancel_replacement(&self, command: CancelReplicaReplacement) -> (out: CommandPlan)
        requires
            has_data(self@),
        ensures
            out@ == planned(self@, VolumeCommand::CancelReplacement(command)),
    {
        if self.replacement.is_none() && self.expected_generation_is_current(command.expected) {
            return self.current();
        }
        if let Some(plan) = self.check_expected(command.expected) {
            return plan;
        }
        let replacement = match self.replacement {
            Some(replacement) => replacement,
            None => {
                return self.current();
            },
        };
        if replacement.id != command.replacement_id {
            return self.rejected(VolumeCommandRejection::WrongReplacement);
        }
        let revision: u64 = match self.revision.checked_add(1) {
            Some(revision) => revision,
            None => {
                return self.rejected(VolumeCommandRejection::RevisionExhausted);
            },
        };
        CommandPlan::applied(
            VolumeControlState {
                descriptor: self.descriptor,
                revision,
                disposition: self.disposition,
                data: Some(self.copied_data()),
                replacement: None,
            },
        )
    }

    /// Adopts one rebuilt copy after membership and data checks complete.
    fn adopt_replacement(&self, command: &AdoptReplicaReplacement) -> (out: CommandPlan)
        requires
            has_data(self@),
        ensures
            out@ == planned(self@, VolumeCommand::AdoptReplacement(*command)),
    {
        if self.expected_generation_is_current(command.expected) && self.disposition
            == VolumeDisposition::Live && self.replacement.is_none() && self.has_copies(
            &command.new_copies,
        ) && self.has_writer(command.expected_writer) {
            return self.current();
        }
        if let Some(plan) = self.check_expected(command.expected) {
            return plan;
        }
        if self.disposition != VolumeDisposition::Live {
            return self.rejected(VolumeCommandRejection::VolumeNotLive);
        }
        let replacement = match self.replacement {
            Some(replacement) => replacement,
            None => {
                return self.rejected(VolumeCommandRejection::NoReplacement);
            },
        };
        if replacement.id != command.replacement_id {
            return self.rejected(VolumeCommandRejection::WrongReplacement);
        }
        let data = self.copied_data();
        if !same_writer(data.writer, command.expected_writer) {
            return self.rejected(VolumeCommandRejection::WrongWriter);
        }
        if !valid_adoption(&data.copies, replacement, &command.new_copies) {
            return self.rejected(VolumeCommandRejection::InvalidReplacement);
        }
        if let Some(writer) = command.expected_writer {
            if !command.new_copies.contains(&writer.node_id) {
                return self.rejected(VolumeCommandRejection::InvalidReplacement);
            }
        }
        let (revision, fence) = match self.next_revision_and_fence() {
            Some(next) => next,
            None => {
                return self.exhausted();
            },
        };
        CommandPlan::applied(
            VolumeControlState {
                descriptor: self.descriptor,
                revision,
                disposition: self.disposition,
                data: Some(
                    DataControlState {
                        fence,
                        copies: command.new_copies.clone(),
                        writer: data.writer,
                        recovery: data.recovery,
                    },
                ),
                replacement: None,
            },
        )
    }

    /// Grows the capacity of a quiet live generation without moving its fence.
    fn expand(&self, command: ExpandVolume) -> (out: CommandPlan)
        requires
            has_data(self@),
        ensures
            out@ == planned(self@, VolumeCommand::Expand(command)),
    {
        let target = command.target_capacity;
        let has_target = match &self.descriptor {
            Some(descriptor) => descriptor.capacity() == target,
            None => false,
        };
        if self.expected_generation_is_current(command.expected) && has_target {
            return self.current();
        }
        if let Some(plan) = self.check_expected(command.expected) {
            return plan;
        }
        if self.disposition != VolumeDisposition::Live {
            return self.rejected(VolumeCommandRejection::VolumeNotLive);
        }
        if self.has_recovery() {
            return self.rejected(VolumeCommandRejection::RecoveryInProgress);
        }
        if self.replacement.is_some() {
            return self.rejected(VolumeCommandRejection::ReplacementInProgress);
        }
        let descriptor = match &self.descriptor {
            Some(descriptor) => *descriptor,
            None => {
                return self.rejected(VolumeCommandRejection::NotInitialized);
            },
        };
        if target.bytes() < descriptor.capacity().bytes() {
            return self.rejected(VolumeCommandRejection::CapacityCannotShrink);
        }
        let expanded = match descriptor.with_capacity(target) {
            Ok(expanded) => expanded,
            Err(_) => {
                return self.rejected(VolumeCommandRejection::CapacityNotAligned);
            },
        };
        let revision: u64 = match self.revision.checked_add(1) {
            Some(revision) => revision,
            None => {
                return self.rejected(VolumeCommandRejection::RevisionExhausted);
            },
        };
        CommandPlan::applied(
            VolumeControlState {
                descriptor: Some(expanded),
                revision,
                disposition: self.disposition,
                data: Some(self.copied_data()),
                replacement: self.replacement,
            },
        )
    }

    /// Checks compare-and-set identity after exact-postcondition handling.
    fn check_expected(&self, expected: ExpectedVolumeRevision) -> (out: Option<CommandPlan>)
        ensures
            match out {
                Some(plan) => plan@.state == self@ && Some(plan@.response) == expectation_failure(
                    self@,
                    expected,
                ),
                None => expectation_failure(self@, expected) is None,
            },
    {
        let descriptor = match &self.descriptor {
            Some(descriptor) => descriptor,
            None => {
                return Some(self.rejected(VolumeCommandRejection::NotInitialized));
            },
        };
        if descriptor.generation() != expected.generation {
            return Some(self.rejected(VolumeCommandRejection::WrongGeneration));
        }
        if self.revision != expected.revision {
            return Some(
                CommandPlan {
                    state: self.clone(),
                    response: VolumeCommandResponse::Conflict { current_revision: self.revision },
                },
            );
        }
        None
    }

    /// Checks only generation identity for exact postcondition recognition.
    fn expected_generation_is_current(&self, expected: ExpectedVolumeRevision) -> (out: bool)
        ensures
            out == is_generation(self@, expected),
    {
        match &self.descriptor {
            Some(descriptor) => descriptor.generation() == expected.generation,
            None => false,
        }
    }

    /// Checks whether a pristine initialized state exactly matches a retry.
    fn initialization_is_current(&self, command: &InitializeVolume) -> (out: bool)
        ensures
            out == is_done(self@, VolumeCommand::Initialize(*command)),
    {
        let described = match &self.descriptor {
            Some(descriptor) => *descriptor == command.descriptor,
            None => false,
        };
        let pristine = match &self.data {
            Some(data) => data.fence == FenceEpoch::initial() && data.copies.same(
                &command.initial_copies,
            ) && data.writer.is_none() && data.recovery.is_none(),
            None => false,
        };
        self.revision == 1 && self.disposition == VolumeDisposition::Live && described
            && self.replacement.is_none() && pristine
    }

    /// Returns whether the data facts name exactly this writer.
    fn has_writer(&self, writer: Option<WriterGrant>) -> (out: bool)
        ensures
            out == (self@.data is Some && self@.data->0.writer == writer),
    {
        match &self.data {
            Some(data) => same_writer(data.writer, writer),
            None => false,
        }
    }

    /// Returns whether the data facts name exactly these copies.
    fn has_copies(&self, copies: &CopySet) -> (out: bool)
        ensures
            out == (self@.data is Some && self@.data->0.copies == copies@),
    {
        match &self.data {
            Some(data) => data.copies.same(copies),
            None => false,
        }
    }

    /// Returns whether a recovery is authorized, or there are no data facts.
    fn has_recovery(&self) -> (out: bool)
        ensures
            out == !(self@.data is Some && self@.data->0.recovery is None),
    {
        match &self.data {
            Some(data) => data.recovery.is_some(),
            None => true,
        }
    }

    /// Returns whether exactly this recovery is authorized for all current copies.
    fn is_recovering(&self, recovery: &RecoveryGrant) -> (out: bool)
        ensures
            out == (self@.data is Some && self@.data->0.recovery == Some(recovery@)
                && self@.data->0.copies == recovery@.target_node_ids),
    {
        match &self.data {
            Some(data) => {
                let same = match &data.recovery {
                    Some(current) => current.same(recovery),
                    None => false,
                };
                same && data.copies.same(&recovery.target_node_ids)
            },
            None => false,
        }
    }

    /// Returns a copy of the data facts after callers establish initialization.
    fn copied_data(&self) -> (out: DataControlState)
        requires
            self@.data is Some,
        ensures
            Some(out@) == self@.data,
    {
        match &self.data {
            Some(data) => data.clone(),
            None => DataControlState {
                fence: FenceEpoch::initial(),
                copies: CopySet::new(),
                writer: None,
                recovery: None,
            },
        }
    }

    /// Calculates one atomic revision and fence advance without wrapping.
    fn next_revision_and_fence(&self) -> (out: Option<(u64, FenceEpoch)>)
        requires
            self@.data is Some,
        ensures
            match out {
                Some((revision, fence)) => revision == self@.revision + 1
                    && self@.data->0.fence.following() == Some(fence),
                None => self@.revision == u64::MAX || self@.data->0.fence.following() is None,
            },
    {
        let revision: u64 = match self.revision.checked_add(1) {
            Some(revision) => revision,
            None => {
                return None;
            },
        };
        match next_fence(self) {
            Some(fence) => Some((revision, fence)),
            None => None,
        }
    }

    /// Returns the response for a command whose postcondition already holds.
    fn current(&self) -> (out: CommandPlan)
        ensures
            out@ == (PlanView {
                state: self@,
                response: VolumeCommandResponse::Current {
                    revision: self@.revision,
                    fence: fence_of(self@),
                },
            }),
    {
        CommandPlan {
            state: self.clone(),
            response: VolumeCommandResponse::Current {
                revision: self.revision,
                fence: self.fence(),
            },
        }
    }

    /// Returns the fence of an initialized state.
    fn fence(&self) -> (out: Option<FenceEpoch>)
        ensures
            out == fence_of(self@),
    {
        match &self.data {
            Some(data) => Some(data.fence),
            None => None,
        }
    }

    /// Returns a deterministic rejection without changing any state byte.
    fn rejected(&self, rejection: VolumeCommandRejection) -> (out: CommandPlan)
        ensures
            out@ == (PlanView {
                state: self@,
                response: VolumeCommandResponse::Rejected(rejection),
            }),
    {
        CommandPlan {
            state: self.clone(),
            response: VolumeCommandResponse::Rejected(rejection),
        }
    }

    /// Distinguishes revision exhaustion from fence exhaustion.
    fn exhausted(&self) -> (out: CommandPlan)
        ensures
            out@ == (PlanView {
                state: self@,
                response: VolumeCommandResponse::Rejected(
                    if self@.revision == u64::MAX {
                        VolumeCommandRejection::RevisionExhausted
                    } else {
                        VolumeCommandRejection::FenceExhausted
                    },
                ),
            }),
    {
        if self.revision == u64::MAX {
            self.rejected(VolumeCommandRejection::RevisionExhausted)
        } else {
            self.rejected(VolumeCommandRejection::FenceExhausted)
        }
    }
}

/// Returns the next durable data fence for initialized control state.
fn next_fence(state: &VolumeControlState) -> (out: Option<FenceEpoch>)
    ensures
        out == match state@.data {
            Some(data) => data.fence.following(),
            None => None,
        },
{
    match &state.data {
        Some(data) => data.fence.next(),
        None => None,
    }
}

/// Returns whether the replacement grant fits the data facts.
fn fits_data(data: &DataControlState, replacement: ReplacementGrant) -> (out: bool)
    ensures
        out == replacement_fits(data@, replacement),
{
    let writer_elsewhere = match data.writer {
        Some(writer) => writer.node_id != replacement.source_node_id,
        None => false,
    };
    replacement.coordinator_node_id == replacement.source_node_id && data.copies.contains(
        &replacement.source_node_id,
    ) && !writer_elsewhere && !data.copies.contains(&replacement.new_node_id)
        && replacement.new_node_id != replacement.source_node_id && !same_node(
        replacement.old_node_id,
        Some(replacement.new_node_id),
    ) && !same_node(replacement.old_node_id, Some(replacement.source_node_id))
        && replacement_copy_set(&data.copies, replacement).len() == 3
}

impl CommandPlan {
    /// Builds the response for one state transition.
    fn applied(state: VolumeControlState) -> (out: Self)
        ensures
            out@ == (PlanView {
                state: state@,
                response: VolumeCommandResponse::Applied {
                    revision: state@.revision,
                    fence: fence_of(state@),
                },
            }),
    {
        let response = VolumeCommandResponse::Applied {
            revision: state.revision,
            fence: state.fence(),
        };
        CommandPlan { state, response }
    }
}

/// Explains why decoded or constructed control state is unsafe to publish.
#[derive(Clone, Copy, Debug, PartialEq, Eq, Structural)]
pub enum VolumeControlStateInvariantError {
    /// Uninitialized control state contains a revision, grant, or disposition.
    InvalidUninitializedState,

    /// Descriptor and data control state must appear together.
    DescriptorDataMismatch,

    /// An initialized state must have a non-zero compare-and-set revision.
    ZeroInitializedRevision,

    /// Foreground operation requires exactly two or three active copies.
    InvalidCopyCount,

    /// The selected writer is not one of the active copies.
    WriterOutsideCopySet,

    /// Recovery grant and current data facts disagree.
    InvalidRecovery,

    /// Replacement grant and current data facts disagree.
    InvalidReplacement,

    /// Retained generations cannot contain operational grants.
    GrantOnInactiveVolume,
}

impl VolumeControlStateInvariantError {
    /// Text of the error.
    pub open spec fn text(self) -> Seq<char> {
        match self {
            VolumeControlStateInvariantError::InvalidUninitializedState =>
                "uninitialized volume control state contains initialized state"@,
            VolumeControlStateInvariantError::DescriptorDataMismatch =>
                "volume descriptor and data control state presence differ"@,
            VolumeControlStateInvariantError::ZeroInitializedRevision =>
                "initialized volume control state has revision zero"@,
            VolumeControlStateInvariantError::InvalidCopyCount =>
                "active data control state does not contain two or three copies"@,
            VolumeControlStateInvariantError::WriterOutsideCopySet =>
                "volume writer is outside the active data-copy set"@,
            VolumeControlStateInvariantError::InvalidRecovery =>
                "volume recovery grant is internally inconsistent"@,
            VolumeControlStateInvariantError::InvalidReplacement =>
                "volume replacement grant is internally inconsistent"@,
            VolumeControlStateInvariantError::GrantOnInactiveVolume =>
                "inactive volume generation contains an operational grant"@,
        }
    }

    /// Returns the text of the error.
    pub fn message(&self) -> (out: String)
        ensures
            out@ == self.text(),
    {
        let text = match self {
            VolumeControlStateInvariantError::InvalidUninitializedState =>
                "uninitialized volume control state contains initialized state",
            VolumeControlStateInvariantError::DescriptorDataMismatch =>
                "volume descriptor and data control state presence differ",
            VolumeControlStateInvariantError::ZeroInitializedRevision =>
                "initialized volume control state has revision zero",
            VolumeControlStateInvariantError::InvalidCopyCount =>
                "active data control state does not contain two or three copies",
            VolumeControlStateInvariantError::WriterOutsideCopySet =>
                "volume writer is outside the active data-copy set",
            VolumeControlStateInvariantError::InvalidRecovery =>
                "volume recovery grant is internally inconsistent",
            VolumeControlStateInvariantError::InvalidReplacement =>
                "volume replacement grant is internally inconsistent",
            VolumeControlStateInvariantError::GrantOnInactiveVolume =>
                "inactive volume generation contains an operational grant",
        };
        let mut out = String::new();
        push_text(&mut out, text);
        proof { assert(out@ =~= self.text()); }
        out
    }
}

} // verus!
