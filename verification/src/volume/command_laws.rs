//! What each control command brings about, and when it is owed.

use vstd::prelude::*;

use super::control_rules::{invariant_error, is_done, is_valid, planned};
use super::control_state::{
    AdoptReplicaReplacement, BeginReplicaReplacement, BeginVolumeRecovery,
    CancelReplicaReplacement, CommandPlan, ControlView, ExpandVolume, ExpectedVolumeRevision,
    FenceVolumeWriter, GrantVolumeWriter, InitializeVolume, RevokeVolumeRecovery,
    SetVolumeDisposition, VolumeCommand, VolumeCommandRejection, VolumeCommandResponse,
    VolumeControlState, VolumeControlStateInvariantError, VolumeDisposition,
};
use super::identity::{FenceEpoch, VolumeNodeId};

verus! {

/// The state is of the generation and at the revision that a command was selected against.
pub open spec fn was_observed(state: ControlView, expected: ExpectedVolumeRevision) -> bool {
    state.descriptor is Some && state.descriptor->0.generation_of() == expected.generation
        && state.revision == expected.revision
}

/// One more revision can be counted.
pub open spec fn can_advance(state: ControlView) -> bool {
    state.revision < u64::MAX
}

/// One more revision and one more fence can be counted.
pub open spec fn can_fence(state: ControlView) -> bool {
    state.revision < u64::MAX && state.data->0.fence.value() < u64::MAX
}

/// The command took effect, now or before.
pub open spec fn succeeded(response: VolumeCommandResponse) -> bool {
    response is Applied || response is Current
}

/// Initialization takes effect exactly on an empty state with three copies; the volume then
/// has the given descriptor and copies, revision and fence one, and no grant. Any other
/// initialization of an initialized state is refused.
pub proof fn law_initialization(state: ControlView, command: InitializeVolume)
    requires
        is_valid(state),
    ensures
        ({
            let plan = planned(state, VolumeCommand::Initialize(command));
            &&& plan.response is Applied <==> state.descriptor is None
                && command.initial_copies@.len() == 3
            &&& succeeded(plan.response) ==> {
                &&& plan.state.descriptor == Some(command.descriptor)
                &&& plan.state.revision == 1
                &&& plan.state.disposition == VolumeDisposition::Live
                &&& plan.state.replacement is None
                &&& plan.state.data is Some
                &&& plan.state.data->0.fence.value() == 1
                &&& plan.state.data->0.copies == command.initial_copies@
                &&& plan.state.data->0.writer is None
                &&& plan.state.data->0.recovery is None
            }
            &&& state.descriptor is None && command.initial_copies@.len() != 3 ==> plan.response
                == VolumeCommandResponse::Rejected(VolumeCommandRejection::InvalidCopySet)
            &&& state.descriptor is Some && !(plan.response is Current) ==> plan.response
                == VolumeCommandResponse::Rejected(VolumeCommandRejection::AlreadyInitialized)
        }),
{
    FenceEpoch::first().lemma_following(FenceEpoch::first());
}

/// A disposition command that succeeds leaves the volume in the requested disposition. A
/// volume that stops being live loses its writer, its recovery and its replacement and gets
/// a new fence; one that becomes live again keeps everything.
pub proof fn law_disposition(state: ControlView, command: SetVolumeDisposition)
    requires
        is_valid(state),
    ensures
        ({
            let plan = planned(state, VolumeCommand::SetDisposition(command));
            &&& succeeded(plan.response) ==> plan.state.disposition == command.disposition
            &&& plan.response is Applied <==> was_observed(state, command.expected)
                && state.disposition != command.disposition && can_advance(state) && (
            command.disposition == VolumeDisposition::Live || can_fence(state))
            &&& plan.response is Applied && command.disposition == VolumeDisposition::Retained ==> {
                &&& plan.state.data->0.writer is None
                &&& plan.state.data->0.recovery is None
                &&& plan.state.replacement is None
                &&& plan.state.data->0.copies == state.data->0.copies
                &&& plan.state.data->0.fence.value() == state.data->0.fence.value() + 1
            }
            &&& plan.response is Applied && command.disposition == VolumeDisposition::Live ==> {
                &&& plan.state.data == state.data
                &&& plan.state.replacement == state.replacement
            }
            &&& plan.state.descriptor == state.descriptor
        }),
{
    if state.data is Some {
        state.data->0.fence.lemma_following(FenceEpoch::first());
    }
}

/// A writer grant that succeeds leaves exactly the named node and session as the writer,
/// with no recovery beside it. It applies exactly where a live volume without recovery and
/// replacement holds a copy on that node and has another writer or none; it then moves the
/// fence by one and changes nothing else.
pub proof fn law_writer_grant(state: ControlView, command: GrantVolumeWriter)
    requires
        is_valid(state),
    ensures
        ({
            let plan = planned(state, VolumeCommand::GrantWriter(command));
            &&& succeeded(plan.response) ==> {
                &&& plan.state.data is Some
                &&& plan.state.data->0.writer is Some
                &&& plan.state.data->0.writer->0.node_id == command.writer.node_id
                &&& plan.state.data->0.writer->0.session_id == command.writer.session_id
                &&& plan.state.data->0.copies.contains(command.writer.node_id)
                &&& plan.state.data->0.recovery is None
                &&& plan.state.disposition == VolumeDisposition::Live
                &&& plan.state.descriptor is Some
                &&& plan.state.descriptor->0.generation_of() == command.expected.generation
            }
            &&& plan.response is Applied <==> was_observed(state, command.expected)
                && state.disposition == VolumeDisposition::Live && state.replacement is None
                && state.data->0.recovery is None && state.data->0.copies.contains(
                command.writer.node_id,
            ) && state.data->0.writer != Some(command.writer) && can_fence(state)
            &&& plan.response is Applied ==> {
                &&& plan.state.data->0.fence.value() == state.data->0.fence.value() + 1
                &&& plan.state.data->0.copies == state.data->0.copies
                &&& plan.state.revision == state.revision + 1
                &&& plan.state.descriptor == state.descriptor
                &&& plan.state.replacement is None
            }
        }),
{
    if state.data is Some {
        state.data->0.fence.lemma_following(FenceEpoch::first());
    }
}

/// A fencing that succeeds leaves no writer. It applies exactly where the named writer
/// holds the grant, and it moves the fence by one and leaves copies, recovery and
/// replacement alone.
pub proof fn law_writer_fencing(state: ControlView, command: FenceVolumeWriter)
    requires
        is_valid(state),
    ensures
        ({
            let plan = planned(state, VolumeCommand::FenceWriter(command));
            &&& succeeded(plan.response) ==> plan.state.data is Some
                && plan.state.data->0.writer is None
            &&& plan.response is Applied <==> was_observed(state, command.expected)
                && state.data->0.writer == Some(command.writer) && can_fence(state)
            &&& plan.response is Applied ==> {
                &&& plan.state.data->0.fence.value() == state.data->0.fence.value() + 1
                &&& plan.state.data->0.copies == state.data->0.copies
                &&& plan.state.data->0.recovery == state.data->0.recovery
                &&& plan.state.replacement == state.replacement
                &&& plan.state.disposition == state.disposition
                &&& plan.state.descriptor == state.descriptor
            }
            &&& was_observed(state, command.expected) && state.data->0.writer is Some
                && state.data->0.writer != Some(command.writer) ==> plan.response
                == VolumeCommandResponse::Rejected(VolumeCommandRejection::WrongWriter)
        }),
{
    if state.data is Some {
        state.data->0.fence.lemma_following(FenceEpoch::first());
    }
}

/// The recovery may be selected: its source is an active copy that coordinates it, and its
/// two or three targets are active copies with the source among them.
pub open spec fn is_selectable(copies: Set<VolumeNodeId>, command: BeginVolumeRecovery) -> bool {
    let targets = command.recovery.target_node_ids@;
    &&& targets.len() == 2 || targets.len() == 3
    &&& targets.contains(command.recovery.source_node_id)
    &&& forall|node: VolumeNodeId| #[trigger] targets.contains(node) ==> copies.contains(node)
    &&& command.recovery.coordinator_node_id == command.recovery.source_node_id
}

/// A recovery that succeeds leaves the volume without writer, on exactly the targets, and
/// with exactly the given grant. It applies exactly where the live volume has the expected
/// writer, no replacement, and no recovery but the one to be replaced, which has another
/// identity; it then moves the fence by one.
pub proof fn law_recovery_begins(state: ControlView, command: BeginVolumeRecovery)
    requires
        is_valid(state),
    ensures
        ({
            let plan = planned(state, VolumeCommand::BeginRecovery(command));
            &&& succeeded(plan.response) ==> {
                &&& plan.state.data is Some
                &&& plan.state.data->0.writer is None
                &&& plan.state.data->0.recovery == Some(command.recovery@)
                &&& plan.state.data->0.copies == command.recovery.target_node_ids@
                &&& plan.state.replacement is None
            }
            &&& plan.response is Applied ==> {
                &&& was_observed(state, command.expected)
                &&& state.disposition == VolumeDisposition::Live
                &&& state.replacement is None
                &&& state.data->0.writer == command.expected_writer
                &&& is_selectable(state.data->0.copies, command)
                &&& state.data->0.recovery is Some ==> command.replaced_recovery_id == Some(
                    state.data->0.recovery->0.id,
                ) && state.data->0.recovery->0.id != command.recovery.id
                &&& state.data->0.recovery is None ==> command.replaced_recovery_id is None
                &&& plan.state.data->0.fence.value() == state.data->0.fence.value() + 1
                &&& plan.state.descriptor == state.descriptor
                &&& plan.state.disposition == state.disposition
            }
            &&& was_observed(state, command.expected) && state.disposition
                == VolumeDisposition::Live && state.replacement is None
                && state.data->0.writer == command.expected_writer && is_selectable(
                state.data->0.copies,
                command,
            ) && can_fence(state) && (if state.data->0.recovery is Some {
                command.replaced_recovery_id == Some(state.data->0.recovery->0.id)
                    && state.data->0.recovery->0.id != command.recovery.id
            } else {
                command.replaced_recovery_id is None
            }) ==> plan.response is Applied
        }),
{
    if state.data is Some {
        state.data->0.fence.lemma_following(FenceEpoch::first());
        let targets = command.recovery.target_node_ids@;
        if is_selectable(state.data->0.copies, command) {
            assert(targets.subset_of(state.data->0.copies));
        }
    }
}

/// A revocation that succeeds leaves no recovery. It applies exactly to the named recovery
/// of a live volume, and it changes neither the fence nor the copies nor the writer.
pub proof fn law_recovery_is_revoked(state: ControlView, command: RevokeVolumeRecovery)
    requires
        is_valid(state),
    ensures
        ({
            let plan = planned(state, VolumeCommand::RevokeRecovery(command));
            &&& succeeded(plan.response) ==> plan.state.data is Some
                && plan.state.data->0.recovery is None
            &&& plan.response is Applied <==> was_observed(state, command.expected)
                && state.disposition == VolumeDisposition::Live && state.data->0.recovery is Some
                && state.data->0.recovery->0.id == command.recovery_id && can_advance(state)
            &&& plan.response is Applied ==> {
                &&& plan.state.data->0.fence == state.data->0.fence
                &&& plan.state.data->0.copies == state.data->0.copies
                &&& plan.state.data->0.writer is None
                &&& plan.state.replacement == state.replacement
                &&& plan.state.disposition == state.disposition
                &&& plan.state.descriptor == state.descriptor
            }
        }),
{
}

/// Copies after a replacement: the new node comes in, the old one, if any, goes, and the
/// others stay.
pub open spec fn are_replaced(
    before: Set<VolumeNodeId>,
    after: Set<VolumeNodeId>,
    old_node_id: Option<VolumeNodeId>,
    new_node_id: VolumeNodeId,
) -> bool {
    forall|node: VolumeNodeId| #[trigger]
        after.contains(node) <==> node == new_node_id || (before.contains(node) && old_node_id
            != Some(node))
}

/// A replacement that succeeds is the one that the volume has afterwards. It applies only
/// where a live volume has neither recovery nor replacement, to a new node without a copy,
/// from a source that holds a copy, coordinates, is no writer's rival and is not the node
/// to be replaced; it leaves the data with its fence alone.
pub proof fn law_replacement_begins(state: ControlView, command: BeginReplicaReplacement)
    requires
        is_valid(state),
        state.data is Some ==> state.data->0.copies.finite(),
    ensures
        ({
            let plan = planned(state, VolumeCommand::BeginReplacement(command));
            let grant = command.replacement;
            &&& succeeded(plan.response) ==> plan.state.replacement == Some(grant)
            &&& plan.response is Applied ==> {
                &&& was_observed(state, command.expected)
                &&& state.disposition == VolumeDisposition::Live
                &&& state.data->0.recovery is None
                &&& state.replacement is None
                &&& grant.coordinator_node_id == grant.source_node_id
                &&& state.data->0.copies.contains(grant.source_node_id)
                &&& !state.data->0.copies.contains(grant.new_node_id)
                &&& grant.old_node_id != Some(grant.source_node_id)
                &&& state.data->0.writer is Some ==> state.data->0.writer->0.node_id
                    == grant.source_node_id
                &&& plan.state.data == state.data
                &&& plan.state.descriptor == state.descriptor
                &&& plan.state.disposition == state.disposition
            }
            &&& was_observed(state, command.expected) && state.disposition
                == VolumeDisposition::Live && state.data->0.recovery is None
                && state.replacement is None && grant.coordinator_node_id == grant.source_node_id
                && state.data->0.copies.contains(grant.source_node_id)
                && !state.data->0.copies.contains(grant.new_node_id) && grant.old_node_id != Some(
                grant.source_node_id,
            ) && grant.old_node_id != Some(grant.new_node_id) && (state.data->0.writer is Some
                ==> state.data->0.writer->0.node_id == grant.source_node_id) && can_advance(state)
                && (if grant.old_node_id is Some && state.data->0.copies.contains(
                grant.old_node_id->0,
            ) {
                state.data->0.copies.len() == 3
            } else {
                state.data->0.copies.len() == 2
            }) ==> plan.response is Applied
        }),
{
    if state.data is Some {
        let copies = state.data->0.copies;
        let grant = command.replacement;
        if let Some(node) = grant.old_node_id {
            if !copies.contains(node) {
                assert(copies.remove(node) =~= copies);
            }
        }
    }
}

/// A cancellation that succeeds leaves no replacement. It applies exactly to the named
/// replacement, and it leaves the data with its fence alone.
pub proof fn law_replacement_is_cancelled(state: ControlView, command: CancelReplicaReplacement)
    requires
        is_valid(state),
    ensures
        ({
            let plan = planned(state, VolumeCommand::CancelReplacement(command));
            &&& succeeded(plan.response) ==> plan.state.replacement is None
            &&& plan.response is Applied <==> was_observed(state, command.expected)
                && state.replacement is Some && state.replacement->0.id == command.replacement_id
                && can_advance(state)
            &&& plan.response is Applied ==> {
                &&& plan.state.data == state.data
                &&& plan.state.descriptor == state.descriptor
                &&& plan.state.disposition == state.disposition
            }
        }),
{
}

/// An adoption that succeeds leaves the volume on exactly the given copies, with the
/// expected writer and no replacement. It applies only to the named replacement of a live
/// volume, the new copies are three and differ from the old ones by that replacement alone,
/// the writer keeps its grant, and the fence moves by one.
pub proof fn law_replacement_is_adopted(state: ControlView, command: AdoptReplicaReplacement)
    requires
        is_valid(state),
    ensures
        ({
            let plan = planned(state, VolumeCommand::AdoptReplacement(command));
            &&& succeeded(plan.response) ==> {
                &&& plan.state.data is Some
                &&& plan.state.data->0.copies == command.new_copies@
                &&& plan.state.data->0.writer == command.expected_writer
                &&& plan.state.replacement is None
                &&& plan.state.disposition == VolumeDisposition::Live
            }
            &&& plan.response is Applied ==> {
                &&& was_observed(state, command.expected)
                &&& state.disposition == VolumeDisposition::Live
                &&& state.replacement is Some
                &&& state.replacement->0.id == command.replacement_id
                &&& state.data->0.writer == command.expected_writer
                &&& command.new_copies@.len() == 3
                &&& are_replaced(
                    state.data->0.copies,
                    command.new_copies@,
                    state.replacement->0.old_node_id,
                    state.replacement->0.new_node_id,
                )
                &&& plan.state.data->0.fence.value() == state.data->0.fence.value() + 1
                &&& plan.state.data->0.recovery == state.data->0.recovery
                &&& plan.state.descriptor == state.descriptor
            }
            &&& was_observed(state, command.expected) && state.disposition
                == VolumeDisposition::Live && state.replacement is Some
                && state.replacement->0.id == command.replacement_id
                && state.data->0.writer == command.expected_writer && are_replaced(
                state.data->0.copies,
                command.new_copies@,
                state.replacement->0.old_node_id,
                state.replacement->0.new_node_id,
            ) && can_fence(state) ==> plan.response is Applied
        }),
{
    if state.data is Some {
        state.data->0.fence.lemma_following(FenceEpoch::first());
        if let Some(grant) = state.replacement {
            let copies = state.data->0.copies;
            let next = super::control_rules::replacement_copies(copies, grant);
            assert(are_replaced(copies, next, grant.old_node_id, grant.new_node_id));
            if are_replaced(copies, command.new_copies@, grant.old_node_id, grant.new_node_id) {
                assert forall|node: VolumeNodeId| command.new_copies@.contains(node)
                    == next.contains(node) by {}
                assert(command.new_copies@ =~= next);
            }
        }
    }
}

/// An expansion that succeeds leaves the volume with exactly the target capacity. It
/// applies exactly where a live volume without recovery and replacement would grow to a
/// whole number of blocks.
pub proof fn law_expansion(state: ControlView, command: ExpandVolume)
    requires
        is_valid(state),
    ensures
        ({
            let plan = planned(state, VolumeCommand::Expand(command));
            &&& succeeded(plan.response) ==> plan.state.descriptor is Some
                && plan.state.descriptor->0.capacity_of() == command.target_capacity
            &&& plan.response is Applied <==> was_observed(state, command.expected)
                && state.disposition == VolumeDisposition::Live && state.data->0.recovery is None
                && state.replacement is None && command.target_capacity.size()
                > state.descriptor->0.capacity_of().size() && command.target_capacity.size() % 4096
                == 0 && can_advance(state)
            &&& plan.response is Applied ==> plan.state.data == state.data
                && plan.state.disposition == state.disposition
            &&& was_observed(state, command.expected) && command.target_capacity.size()
                < state.descriptor->0.capacity_of().size() ==> !succeeded(plan.response)
        }),
{
    if state.descriptor is Some {
        let held = state.descriptor->0.capacity_of();
        super::descriptor::VolumeCapacity::lemma_size(held, command.target_capacity);
        state.descriptor->0.lemma_resized(command.target_capacity);
    }
}

/// A refusal names a reason that holds.
pub proof fn law_refusals_are_true(state: ControlView, command: VolumeCommand)
    requires
        is_valid(state),
    ensures
        match planned(state, command).response {
            VolumeCommandResponse::Conflict { current_revision } => current_revision
                == state.revision,
            VolumeCommandResponse::Rejected(reason) => match reason {
                VolumeCommandRejection::NotInitialized => state.descriptor is None,
                VolumeCommandRejection::AlreadyInitialized => state.descriptor is Some
                    && command is Initialize,
                VolumeCommandRejection::VolumeNotLive => state.disposition
                    == VolumeDisposition::Retained,
                VolumeCommandRejection::RecoveryInProgress => state.data->0.recovery is Some,
                VolumeCommandRejection::ReplacementInProgress => state.replacement is Some,
                VolumeCommandRejection::NoRecovery => state.data->0.recovery is None,
                VolumeCommandRejection::NoReplacement => state.replacement is None,
                VolumeCommandRejection::WriterOutsideCopySet => command matches
                    VolumeCommand::GrantWriter(grant) && !state.data->0.copies.contains(
                    grant.writer.node_id,
                ),
                VolumeCommandRejection::RevisionExhausted => state.revision == u64::MAX,
                VolumeCommandRejection::FenceExhausted => state.data->0.fence.value() == u64::MAX,
                VolumeCommandRejection::CapacityCannotShrink => command matches
                    VolumeCommand::Expand(expand) && expand.target_capacity.size()
                    < state.descriptor->0.capacity_of().size(),
                VolumeCommandRejection::CapacityNotAligned => command matches
                    VolumeCommand::Expand(expand) && expand.target_capacity.size() % 4096 != 0,
                VolumeCommandRejection::InvalidCopySet => command matches
                    VolumeCommand::Initialize(initialize) && initialize.initial_copies@.len() != 3,
                VolumeCommandRejection::WrongRecovery => command matches
                    VolumeCommand::RevokeRecovery(revoke) && state.data->0.recovery is Some
                    && state.data->0.recovery->0.id != revoke.recovery_id,
                VolumeCommandRejection::RecoveryIdConflict => command matches
                    VolumeCommand::BeginRecovery(begin) && state.data->0.recovery is Some
                    && state.data->0.recovery->0.id == begin.recovery.id,
                VolumeCommandRejection::ReplacementIdConflict => command matches
                    VolumeCommand::BeginReplacement(begin) && state.replacement is Some
                    && state.replacement->0.id == begin.replacement.id,
                VolumeCommandRejection::WrongReplacement => state.replacement is Some && (command
                    matches VolumeCommand::CancelReplacement(cancel) ==> state.replacement->0.id
                    != cancel.replacement_id) && (command matches VolumeCommand::AdoptReplacement(
                    adopt,
                ) ==> state.replacement->0.id != adopt.replacement_id),
                _ => true,
            },
            _ => true,
        },
{
    if state.data is Some {
        state.data->0.fence.lemma_following(FenceEpoch::first());
    }
    if let VolumeCommand::Expand(expand) = command {
        if state.descriptor is Some {
            let held = state.descriptor->0.capacity_of();
            super::descriptor::VolumeCapacity::lemma_size(held, expand.target_capacity);
        }
    }
}

/// A published state is either empty or has a descriptor with its data, a revision, and two
/// or three copies; a writer holds a copy; a recovery stands alone, covers exactly the
/// copies and comes from one of them; a replacement builds a node without copy from one
/// with; and only a live volume has any of the three.
pub proof fn law_published_states(state: ControlView)
    requires
        is_valid(state),
    ensures
        state.descriptor is Some <==> state.data is Some,
        state.descriptor is Some <==> state.revision > 0,
        state.descriptor is None ==> state.replacement is None && state.disposition
            == VolumeDisposition::Live,
        state.data is Some ==> {
            let data = state.data->0;
            &&& data.copies.len() == 2 || data.copies.len() == 3
            &&& data.writer is Some ==> data.copies.contains(data.writer->0.node_id)
                && data.recovery is None && state.disposition == VolumeDisposition::Live
            &&& data.recovery is Some ==> {
                &&& data.recovery->0.target_node_ids == data.copies
                &&& data.copies.contains(data.recovery->0.source_node_id)
                &&& data.recovery->0.coordinator_node_id == data.recovery->0.source_node_id
                &&& state.replacement is None
                &&& state.disposition == VolumeDisposition::Live
            }
            &&& state.replacement is Some ==> {
                &&& data.copies.contains(state.replacement->0.source_node_id)
                &&& !data.copies.contains(state.replacement->0.new_node_id)
                &&& state.replacement->0.coordinator_node_id
                    == state.replacement->0.source_node_id
                &&& state.replacement->0.old_node_id != Some(
                    state.replacement->0.source_node_id,
                )
                &&& data.writer is Some ==> data.writer->0.node_id
                    == state.replacement->0.source_node_id
                &&& state.disposition == VolumeDisposition::Live
            }
        },
{
}

/// The reason for which a state may not be published holds of it.
pub proof fn law_invalid_states_are_told_apart(state: ControlView)
    ensures
        match invariant_error(state) {
            Some(VolumeControlStateInvariantError::DescriptorDataMismatch) => state.descriptor is Some
                != state.data is Some,
            Some(VolumeControlStateInvariantError::InvalidUninitializedState) =>
                state.descriptor is None && (state.revision > 0 || state.disposition
                    == VolumeDisposition::Retained || state.replacement is Some),
            Some(VolumeControlStateInvariantError::ZeroInitializedRevision) => state.data is Some
                && state.revision == 0,
            Some(VolumeControlStateInvariantError::InvalidCopyCount) => state.data->0.copies.len()
                < 2 || state.data->0.copies.len() > 3,
            Some(VolumeControlStateInvariantError::WriterOutsideCopySet) =>
                state.data->0.writer is Some && !state.data->0.copies.contains(
                    state.data->0.writer->0.node_id,
                ),
            Some(VolumeControlStateInvariantError::InvalidRecovery) =>
                state.data->0.recovery is Some,
            Some(VolumeControlStateInvariantError::InvalidReplacement) =>
                state.replacement is Some,
            Some(VolumeControlStateInvariantError::GrantOnInactiveVolume) => state.disposition
                == VolumeDisposition::Retained,
            None => true,
        },
{
}

/// Whoever evaluates a command gets a plan in which a command that succeeded has brought
/// about what it asks for, and in which a command that was not applied has changed nothing.
pub proof fn law_evaluate_call(
    state: VolumeControlState,
    command: VolumeCommand,
    out: CommandPlan,
)
    requires
        call_ensures(VolumeControlState::evaluate, (&state, &command), out),
        is_valid(state@),
        state@.data is Some ==> state@.data->0.copies.finite(),
    ensures
        !(out@.response is Applied) ==> out@.state == state@,
        out@.response is Applied && state@.descriptor is Some ==> out@.state.revision
            == state@.revision + 1,
        succeeded(out@.response) ==> match command {
            VolumeCommand::Initialize(given) => out@.state.descriptor == Some(given.descriptor)
                && out@.state.data->0.copies == given.initial_copies@,
            VolumeCommand::SetDisposition(given) => out@.state.disposition == given.disposition,
            VolumeCommand::GrantWriter(given) => out@.state.data->0.writer is Some
                && out@.state.data->0.writer->0.node_id == given.writer.node_id
                && out@.state.data->0.writer->0.session_id == given.writer.session_id,
            VolumeCommand::FenceWriter(_) => out@.state.data->0.writer is None,
            VolumeCommand::BeginRecovery(given) => out@.state.data->0.recovery == Some(
                given.recovery@,
            ),
            VolumeCommand::RevokeRecovery(_) => out@.state.data->0.recovery is None,
            VolumeCommand::BeginReplacement(given) => out@.state.replacement == Some(
                given.replacement,
            ),
            VolumeCommand::CancelReplacement(_) => out@.state.replacement is None,
            VolumeCommand::AdoptReplacement(given) => out@.state.data->0.copies
                == given.new_copies@ && out@.state.replacement is None,
            VolumeCommand::Expand(given) => out@.state.descriptor->0.capacity_of()
                == given.target_capacity,
        },
{
    super::control_laws::law_only_applied_commands_change_state(state@, command);
    if out@.response is Applied {
        super::control_laws::law_applied_commands_advance(state@, command);
    }
    match command {
        VolumeCommand::Initialize(given) => law_initialization(state@, given),
        VolumeCommand::SetDisposition(given) => law_disposition(state@, given),
        VolumeCommand::GrantWriter(given) => law_writer_grant(state@, given),
        VolumeCommand::FenceWriter(given) => law_writer_fencing(state@, given),
        VolumeCommand::BeginRecovery(given) => law_recovery_begins(state@, given),
        VolumeCommand::RevokeRecovery(given) => law_recovery_is_revoked(state@, given),
        VolumeCommand::BeginReplacement(given) => law_replacement_begins(state@, given),
        VolumeCommand::CancelReplacement(given) => law_replacement_is_cancelled(state@, given),
        VolumeCommand::AdoptReplacement(given) => law_replacement_is_adopted(state@, given),
        VolumeCommand::Expand(given) => law_expansion(state@, given),
    }
}

/// A state is accepted exactly where it may be published.
pub proof fn law_validate_call(
    state: VolumeControlState,
    out: Result<(), VolumeControlStateInvariantError>,
)
    requires
        call_ensures(VolumeControlState::validate, (&state,), out),
    ensures
        out is Ok ==> is_valid(state@),
        out is Ok && state@.data is Some ==> state@.data->0.copies.len() == 2
            || state@.data->0.copies.len() == 3,
        out is Ok && state@.data is Some && state@.data->0.writer is Some
            ==> state@.data->0.copies.contains(state@.data->0.writer->0.node_id)
            && state@.data->0.recovery is None,
        is_valid(state@) ==> out is Ok,
{
    if out is Ok {
        law_published_states(state@);
    }
}

/// What concerns the data of a volume is done only where the volume has data.
pub proof fn law_done_commands_have_data(state: ControlView, command: VolumeCommand)
    requires
        is_done(state, command),
    ensures
        command is GrantWriter || command is FenceWriter || command is BeginRecovery
            || command is RevokeRecovery || command is AdoptReplacement || command is Initialize
            ==> state.data is Some,
{
}

} // verus!
