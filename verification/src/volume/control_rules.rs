//! What each command does to the control state.

use vstd::prelude::*;

use super::control_state::{
    BeginVolumeRecovery, ControlView, DataView, ExpectedVolumeRevision, PlanView,
    RecoveryView, ReplacementGrant, VolumeCommand, VolumeCommandRejection, VolumeCommandResponse,
    VolumeControlStateInvariantError, VolumeDisposition, WriterGrant,
};
use super::descriptor::capacity_error;
use super::identity::{FenceEpoch, VolumeNodeId};

verus! {

/// The only copy set that one replacement grant may adopt.
pub open spec fn replacement_copies(
    current: Set<VolumeNodeId>,
    replacement: ReplacementGrant,
) -> Set<VolumeNodeId> {
    match replacement.old_node_id {
        Some(old_node_id) => current.remove(old_node_id),
        None => current,
    }.insert(replacement.new_node_id)
}

/// The recovery grant fits the facts it stands beside.
pub open spec fn recovery_fits(state: ControlView, data: DataView, recovery: RecoveryView) -> bool {
    &&& data.writer is None
    &&& state.replacement is None
    &&& recovery.coordinator_node_id == recovery.source_node_id
    &&& recovery.target_node_ids == data.copies
    &&& recovery.target_node_ids.contains(recovery.source_node_id)
}

/// The replacement grant fits the facts it stands beside.
pub open spec fn replacement_fits(data: DataView, replacement: ReplacementGrant) -> bool {
    &&& replacement.coordinator_node_id == replacement.source_node_id
    &&& data.copies.contains(replacement.source_node_id)
    &&& data.writer is Some ==> data.writer->0.node_id == replacement.source_node_id
    &&& !data.copies.contains(replacement.new_node_id)
    &&& replacement.old_node_id != Some(replacement.new_node_id)
    &&& replacement.old_node_id != Some(replacement.source_node_id)
    &&& replacement.new_node_id != replacement.source_node_id
    &&& replacement_copies(data.copies, replacement).len() == 3
}

/// First relationship that does not hold in the state.
pub open spec fn invariant_error(state: ControlView) -> Option<VolumeControlStateInvariantError> {
    match (state.descriptor, state.data) {
        (None, None) => if state.revision != 0 || state.disposition != VolumeDisposition::Live
            || state.replacement is Some {
            Some(VolumeControlStateInvariantError::InvalidUninitializedState)
        } else {
            None
        },
        (Some(_), Some(data)) => if state.revision == 0 {
            Some(VolumeControlStateInvariantError::ZeroInitializedRevision)
        } else if !(2 <= data.copies.len() <= 3) {
            Some(VolumeControlStateInvariantError::InvalidCopyCount)
        } else if data.writer is Some && !data.copies.contains(data.writer->0.node_id) {
            Some(VolumeControlStateInvariantError::WriterOutsideCopySet)
        } else if data.recovery is Some && !recovery_fits(state, data, data.recovery->0) {
            Some(VolumeControlStateInvariantError::InvalidRecovery)
        } else if state.replacement is Some && !replacement_fits(data, state.replacement->0) {
            Some(VolumeControlStateInvariantError::InvalidReplacement)
        } else if state.disposition != VolumeDisposition::Live && (data.writer is Some
            || data.recovery is Some || state.replacement is Some) {
            Some(VolumeControlStateInvariantError::GrantOnInactiveVolume)
        } else {
            None
        },
        _ => Some(VolumeControlStateInvariantError::DescriptorDataMismatch),
    }
}

/// The state may be published.
pub open spec fn is_valid(state: ControlView) -> bool {
    invariant_error(state) is None
}

/// An initialized state has its data facts.
pub open spec fn has_data(state: ControlView) -> bool {
    state.descriptor is Some ==> state.data is Some
}

/// Compare-and-set fields of a command, which initialization has none of.
pub open spec fn expected_by(command: VolumeCommand) -> Option<ExpectedVolumeRevision> {
    match command {
        VolumeCommand::Initialize(_) => None,
        VolumeCommand::SetDisposition(command) => Some(command.expected),
        VolumeCommand::GrantWriter(command) => Some(command.expected),
        VolumeCommand::FenceWriter(command) => Some(command.expected),
        VolumeCommand::BeginRecovery(command) => Some(command.expected),
        VolumeCommand::RevokeRecovery(command) => Some(command.expected),
        VolumeCommand::BeginReplacement(command) => Some(command.expected),
        VolumeCommand::CancelReplacement(command) => Some(command.expected),
        VolumeCommand::AdoptReplacement(command) => Some(command.expected),
        VolumeCommand::Expand(command) => Some(command.expected),
    }
}

/// The state is of the generation that the command names.
pub open spec fn is_generation(state: ControlView, expected: ExpectedVolumeRevision) -> bool {
    state.descriptor is Some && state.descriptor->0.generation_of() == expected.generation
}

/// Data facts of a freshly initialized volume.
pub open spec fn fresh_data(copies: Set<VolumeNodeId>) -> DataView {
    DataView { fence: FenceEpoch::first(), copies, writer: None, recovery: None }
}

/// The exact postcondition of the command already holds.
pub open spec fn is_done(state: ControlView, command: VolumeCommand) -> bool {
    match command {
        VolumeCommand::Initialize(command) => state == (ControlView {
            descriptor: Some(command.descriptor),
            revision: 1,
            disposition: VolumeDisposition::Live,
            data: Some(fresh_data(command.initial_copies@)),
            replacement: None,
        }),
        VolumeCommand::SetDisposition(command) => {
            &&& is_generation(state, command.expected)
            &&& state.disposition == command.disposition
        },
        VolumeCommand::GrantWriter(command) => {
            &&& is_generation(state, command.expected)
            &&& state.disposition == VolumeDisposition::Live
            &&& state.data is Some
            &&& state.data->0.writer == Some(command.writer)
            &&& state.data->0.recovery is None
        },
        VolumeCommand::FenceWriter(command) => {
            &&& is_generation(state, command.expected)
            &&& state.data is Some
            &&& state.data->0.writer is None
        },
        VolumeCommand::BeginRecovery(command) => {
            &&& is_generation(state, command.expected)
            &&& state.data is Some
            &&& state.data->0.writer is None
            &&& state.data->0.recovery == Some(command.recovery@)
            &&& state.data->0.copies == command.recovery@.target_node_ids
            &&& state.replacement is None
        },
        VolumeCommand::RevokeRecovery(command) => {
            &&& is_generation(state, command.expected)
            &&& state.data is Some
            &&& state.data->0.recovery is None
        },
        VolumeCommand::BeginReplacement(command) => {
            &&& is_generation(state, command.expected)
            &&& state.replacement == Some(command.replacement)
        },
        VolumeCommand::CancelReplacement(command) => {
            &&& is_generation(state, command.expected)
            &&& state.replacement is None
        },
        VolumeCommand::AdoptReplacement(command) => {
            &&& is_generation(state, command.expected)
            &&& state.disposition == VolumeDisposition::Live
            &&& state.replacement is None
            &&& state.data is Some
            &&& state.data->0.copies == command.new_copies@
            &&& state.data->0.writer == command.expected_writer
        },
        VolumeCommand::Expand(command) => {
            &&& is_generation(state, command.expected)
            &&& state.descriptor->0.capacity_of() == command.target_capacity
        },
    }
}

/// Why the expected generation and revision do not admit a command.
pub open spec fn expectation_failure(
    state: ControlView,
    expected: ExpectedVolumeRevision,
) -> Option<VolumeCommandResponse> {
    if state.descriptor is None {
        Some(VolumeCommandResponse::Rejected(VolumeCommandRejection::NotInitialized))
    } else if state.descriptor->0.generation_of() != expected.generation {
        Some(VolumeCommandResponse::Rejected(VolumeCommandRejection::WrongGeneration))
    } else if state.revision != expected.revision {
        Some(VolumeCommandResponse::Conflict { current_revision: state.revision })
    } else {
        None
    }
}

/// Why a recovery selection cannot begin, the disposition aside.
pub open spec fn recovery_objection(
    data: DataView,
    command: BeginVolumeRecovery,
) -> Option<VolumeCommandRejection> {
    let recovery = command.recovery@;
    if data.writer != command.expected_writer {
        Some(VolumeCommandRejection::WrongWriter)
    } else if data.recovery is Some && data.recovery->0.id == recovery.id {
        Some(VolumeCommandRejection::RecoveryIdConflict)
    } else if data.recovery is Some && command.replaced_recovery_id != Some(data.recovery->0.id) {
        Some(VolumeCommandRejection::RecoveryInProgress)
    } else if data.recovery is None && command.replaced_recovery_id is Some {
        Some(VolumeCommandRejection::NoRecovery)
    } else if !(2 <= recovery.target_node_ids.len() <= 3) || recovery.coordinator_node_id
        != recovery.source_node_id || !recovery.target_node_ids.contains(recovery.source_node_id)
        || !data.copies.contains(recovery.source_node_id) || !recovery.target_node_ids.subset_of(
        data.copies,
    ) {
        Some(VolumeCommandRejection::InvalidRecovery)
    } else {
        None
    }
}

/// Why an adoption cannot happen, the disposition aside.
pub open spec fn adoption_objection(
    state: ControlView,
    data: DataView,
    replacement_id: super::identity::ReplacementId,
    new_copies: Set<VolumeNodeId>,
    expected_writer: Option<WriterGrant>,
) -> Option<VolumeCommandRejection> {
    if state.replacement is None {
        Some(VolumeCommandRejection::NoReplacement)
    } else if state.replacement->0.id != replacement_id {
        Some(VolumeCommandRejection::WrongReplacement)
    } else if data.writer != expected_writer {
        Some(VolumeCommandRejection::WrongWriter)
    } else if new_copies.len() != 3 || !new_copies.contains(state.replacement->0.new_node_id)
        || new_copies != replacement_copies(data.copies, state.replacement->0) || (
    expected_writer is Some && !new_copies.contains(expected_writer->0.node_id)) {
        Some(VolumeCommandRejection::InvalidReplacement)
    } else {
        None
    }
}

/// Why an expected command cannot change the state, exhausted counters aside.
pub open spec fn objection(
    state: ControlView,
    command: VolumeCommand,
) -> Option<VolumeCommandRejection> {
    let data = state.data->0;
    let live = state.disposition == VolumeDisposition::Live;
    match command {
        VolumeCommand::Initialize(command) => if state.descriptor is Some {
            Some(VolumeCommandRejection::AlreadyInitialized)
        } else if command.initial_copies@.len() != 3 {
            Some(VolumeCommandRejection::InvalidCopySet)
        } else {
            None
        },
        VolumeCommand::SetDisposition(_) => None,
        VolumeCommand::GrantWriter(command) => if !live {
            Some(VolumeCommandRejection::VolumeNotLive)
        } else if state.replacement is Some {
            Some(VolumeCommandRejection::ReplacementInProgress)
        } else if !data.copies.contains(command.writer.node_id) {
            Some(VolumeCommandRejection::WriterOutsideCopySet)
        } else if data.recovery is Some {
            Some(VolumeCommandRejection::RecoveryInProgress)
        } else {
            None
        },
        VolumeCommand::FenceWriter(command) => if data.writer != Some(command.writer) {
            Some(VolumeCommandRejection::WrongWriter)
        } else {
            None
        },
        VolumeCommand::BeginRecovery(command) => if !live {
            Some(VolumeCommandRejection::VolumeNotLive)
        } else if state.replacement is Some {
            Some(VolumeCommandRejection::ReplacementInProgress)
        } else {
            recovery_objection(data, command)
        },
        VolumeCommand::RevokeRecovery(command) => if !live {
            Some(VolumeCommandRejection::VolumeNotLive)
        } else if data.recovery is None {
            Some(VolumeCommandRejection::NoRecovery)
        } else if data.recovery->0.id != command.recovery_id {
            Some(VolumeCommandRejection::WrongRecovery)
        } else {
            None
        },
        VolumeCommand::BeginReplacement(command) => if !live {
            Some(VolumeCommandRejection::VolumeNotLive)
        } else if data.recovery is Some {
            Some(VolumeCommandRejection::RecoveryInProgress)
        } else if state.replacement is Some && state.replacement->0.id == command.replacement.id {
            Some(VolumeCommandRejection::ReplacementIdConflict)
        } else if state.replacement is Some {
            Some(VolumeCommandRejection::ReplacementInProgress)
        } else if !replacement_fits(data, command.replacement) {
            Some(VolumeCommandRejection::InvalidReplacement)
        } else {
            None
        },
        VolumeCommand::CancelReplacement(command) => if state.replacement->0.id
            != command.replacement_id {
            Some(VolumeCommandRejection::WrongReplacement)
        } else {
            None
        },
        VolumeCommand::AdoptReplacement(command) => if !live {
            Some(VolumeCommandRejection::VolumeNotLive)
        } else {
            adoption_objection(
                state,
                data,
                command.replacement_id,
                command.new_copies@,
                command.expected_writer,
            )
        },
        VolumeCommand::Expand(command) => if !live {
            Some(VolumeCommandRejection::VolumeNotLive)
        } else if data.recovery is Some {
            Some(VolumeCommandRejection::RecoveryInProgress)
        } else if state.replacement is Some {
            Some(VolumeCommandRejection::ReplacementInProgress)
        } else if command.target_capacity.size() < state.descriptor->0.capacity_of().size() {
            Some(VolumeCommandRejection::CapacityCannotShrink)
        } else if capacity_error(command.target_capacity.size()) is Some {
            Some(VolumeCommandRejection::CapacityNotAligned)
        } else {
            None
        },
    }
}

/// The command moves the data fence.
pub open spec fn moves_fence(command: VolumeCommand) -> bool {
    match command {
        VolumeCommand::SetDisposition(command) => command.disposition != VolumeDisposition::Live,
        VolumeCommand::GrantWriter(_) => true,
        VolumeCommand::FenceWriter(_) => true,
        VolumeCommand::BeginRecovery(_) => true,
        VolumeCommand::AdoptReplacement(_) => true,
        _ => false,
    }
}

/// Counter that the command would exhaust.
pub open spec fn exhaustion(
    state: ControlView,
    command: VolumeCommand,
) -> Option<VolumeCommandRejection> {
    if command is Initialize {
        None
    } else if state.revision == u64::MAX {
        Some(VolumeCommandRejection::RevisionExhausted)
    } else if moves_fence(command) && state.data->0.fence.following() is None {
        Some(VolumeCommandRejection::FenceExhausted)
    } else {
        None
    }
}

/// Response that leaves the state as it is, where the command is not done and cannot apply.
pub open spec fn refusal(state: ControlView, command: VolumeCommand) -> Option<
    VolumeCommandResponse,
> {
    let unexpected = match expected_by(command) {
        Some(expected) => expectation_failure(state, expected),
        None => None,
    };
    if unexpected is Some {
        unexpected
    } else if objection(state, command) is Some {
        Some(VolumeCommandResponse::Rejected(objection(state, command)->0))
    } else if exhaustion(state, command) is Some {
        Some(VolumeCommandResponse::Rejected(exhaustion(state, command)->0))
    } else {
        None
    }
}

/// Data facts after the command moved the fence, where it does.
pub open spec fn fenced(data: DataView, command: VolumeCommand) -> DataView {
    if moves_fence(command) {
        DataView { fence: data.fence.following()->0, ..data }
    } else {
        data
    }
}

/// State after the command applied.
pub open spec fn next_state(state: ControlView, command: VolumeCommand) -> ControlView {
    let data = fenced(state.data->0, command);
    let next = ControlView { revision: (state.revision + 1) as u64, data: Some(data), ..state };
    match command {
        VolumeCommand::Initialize(command) => ControlView {
            descriptor: Some(command.descriptor),
            revision: 1,
            disposition: VolumeDisposition::Live,
            data: Some(fresh_data(command.initial_copies@)),
            replacement: None,
        },
        VolumeCommand::SetDisposition(command) => if command.disposition
            != VolumeDisposition::Live {
            ControlView {
                disposition: command.disposition,
                data: Some(DataView { writer: None, recovery: None, ..data }),
                replacement: None,
                ..next
            }
        } else {
            ControlView { disposition: command.disposition, ..next }
        },
        VolumeCommand::GrantWriter(command) => ControlView {
            data: Some(DataView { writer: Some(command.writer), recovery: None, ..data }),
            ..next
        },
        VolumeCommand::FenceWriter(_) => ControlView {
            data: Some(DataView { writer: None, ..data }),
            ..next
        },
        VolumeCommand::BeginRecovery(command) => ControlView {
            data: Some(
                DataView {
                    copies: command.recovery@.target_node_ids,
                    writer: None,
                    recovery: Some(command.recovery@),
                    ..data
                },
            ),
            replacement: None,
            ..next
        },
        VolumeCommand::RevokeRecovery(_) => ControlView {
            data: Some(DataView { recovery: None, ..data }),
            ..next
        },
        VolumeCommand::BeginReplacement(command) => ControlView {
            replacement: Some(command.replacement),
            ..next
        },
        VolumeCommand::CancelReplacement(_) => ControlView { replacement: None, ..next },
        VolumeCommand::AdoptReplacement(command) => ControlView {
            data: Some(DataView { copies: command.new_copies@, ..data }),
            replacement: None,
            ..next
        },
        VolumeCommand::Expand(command) => ControlView {
            descriptor: Some(state.descriptor->0.resized(command.target_capacity)),
            ..next
        },
    }
}

/// Fence of a state that has one.
pub open spec fn fence_of(state: ControlView) -> Option<FenceEpoch> {
    match state.data {
        Some(data) => Some(data.fence),
        None => None,
    }
}

/// What one committed command leads to.
pub open spec fn planned(state: ControlView, command: VolumeCommand) -> PlanView {
    if is_done(state, command) {
        PlanView {
            state,
            response: VolumeCommandResponse::Current {
                revision: state.revision,
                fence: fence_of(state),
            },
        }
    } else if refusal(state, command) is Some {
        PlanView { state, response: refusal(state, command)->0 }
    } else {
        let next = next_state(state, command);
        PlanView {
            state: next,
            response: VolumeCommandResponse::Applied {
                revision: next.revision,
                fence: fence_of(next),
            },
        }
    }
}

} // verus!
