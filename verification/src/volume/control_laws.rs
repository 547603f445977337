//! What holds of every command and every control state.

use vstd::prelude::*;

use super::control_rules::{
    exhaustion, expected_by, fence_of, has_data, is_done, is_valid, planned, refusal,
};
use super::control_state::{
    BeginReplicaReplacement, CancelReplicaReplacement, ControlView, VolumeCommand,
    VolumeCommandRejection, VolumeCommandResponse, VolumeDisposition,
};
use super::identity::FenceEpoch;

verus! {

/// The command changes the state.
pub open spec fn applies(state: ControlView, command: VolumeCommand) -> bool {
    !is_done(state, command) && refusal(state, command) is None
}

/// Number of the fence, or zero before initialization.
pub open spec fn fence_number(state: ControlView) -> int {
    match fence_of(state) {
        Some(fence) => fence.value() as int,
        None => 0,
    }
}

/// Every command keeps every relationship that a published state must have.
pub proof fn law_commands_preserve_validity(state: ControlView, command: VolumeCommand)
    requires
        is_valid(state),
    ensures
        is_valid(planned(state, command).state),
{
    if applies(state, command) {
        if let VolumeCommand::Expand(expand) = command {
            state.descriptor->0.lemma_resized(expand.target_capacity);
        }
    }
}

/// Only an applied command changes the state: retries, conflicts and rejections leave
/// all of it as it was.
pub proof fn law_only_applied_commands_change_state(state: ControlView, command: VolumeCommand)
    ensures
        !(planned(state, command).response is Applied) ==> planned(state, command).state == state,
        planned(state, command).response is Applied <==> applies(state, command),
{
}

/// An applied command advances the revision by exactly one and never moves the fence back.
pub proof fn law_applied_commands_advance(state: ControlView, command: VolumeCommand)
    requires
        is_valid(state),
        applies(state, command),
    ensures
        planned(state, command).state.revision == state.revision + 1,
        planned(state, command).response == (VolumeCommandResponse::Applied {
            revision: (state.revision + 1) as u64,
            fence: fence_of(planned(state, command).state),
        }),
        fence_number(planned(state, command).state) >= fence_number(state),
        fence_number(planned(state, command).state) <= fence_number(state) + 1,
{
    if state.data is Some {
        state.data->0.fence.lemma_following(FenceEpoch::first());
    } else {
        FenceEpoch::first().lemma_following(FenceEpoch::first());
    }
}

/// Whenever the writer, the copies or an authorized recovery appears or changes, the
/// fence moves, so no older data operation passes.
pub proof fn law_data_changes_move_the_fence(state: ControlView, command: VolumeCommand)
    requires
        is_valid(state),
        state.data is Some,
    ensures
        ({
            let before = state.data->0;
            let after = planned(state, command).state.data->0;
            &&& planned(state, command).state.data is Some
            &&& after.writer != before.writer || after.copies != before.copies || (after.recovery
                != before.recovery && after.recovery is Some) ==> after.fence.value()
                == before.fence.value() + 1
        }),
{
    state.data->0.fence.lemma_following(FenceEpoch::first());
}

/// A command that applied is current when it is evaluated again, and changes nothing.
pub proof fn law_retries_are_current(state: ControlView, command: VolumeCommand)
    requires
        is_valid(state),
        applies(state, command),
    ensures
        ({
            let once = planned(state, command).state;
            planned(once, command).state == once && planned(once, command).response == (
            VolumeCommandResponse::Current { revision: once.revision, fence: fence_of(once) })
        }),
{
    if let VolumeCommand::Expand(expand) = command {
        state.descriptor->0.lemma_resized(expand.target_capacity);
    }
    assert(is_done(planned(state, command).state, command));
}

/// A command of another generation never changes an initialized state.
pub proof fn law_other_generations_change_nothing(state: ControlView, command: VolumeCommand)
    requires
        state.descriptor is Some,
        expected_by(command) is Some,
        expected_by(command)->0.generation != state.descriptor->0.generation_of(),
    ensures
        planned(state, command).state == state,
        planned(state, command).response is Rejected,
{
}

/// A command that observed another revision never changes an initialized state.
pub proof fn law_stale_revisions_change_nothing(state: ControlView, command: VolumeCommand)
    requires
        expected_by(command) is Some,
        expected_by(command)->0.revision != state.revision,
    ensures
        planned(state, command).state == state,
{
}

/// Cancelling a replacement that was begun gives back the descriptor, the disposition and the
/// data with its fence, two revisions later and with no replacement; cancelling any other
/// replacement is refused and changes nothing.
pub proof fn law_cancelled_replacement_restores_the_state(
    state: ControlView,
    begin: BeginReplicaReplacement,
    cancel: CancelReplicaReplacement,
)
    requires
        is_valid(state),
        state.replacement is None,
        applies(state, VolumeCommand::BeginReplacement(begin)),
        ({
            let begun = planned(state, VolumeCommand::BeginReplacement(begin)).state;
            &&& begun.revision < u64::MAX
            &&& cancel.expected.generation == begun.descriptor->0.generation_of()
            &&& cancel.expected.revision == begun.revision
        }),
    ensures
        ({
            let begun = planned(state, VolumeCommand::BeginReplacement(begin)).state;
            let plan = planned(begun, VolumeCommand::CancelReplacement(cancel));
            if cancel.replacement_id == begin.replacement.id {
                &&& plan.state == ControlView { revision: plan.state.revision, ..state }
                &&& plan.state.revision == state.revision + 2
                &&& plan.response == (VolumeCommandResponse::Applied {
                    revision: plan.state.revision,
                    fence: fence_of(plan.state),
                })
            } else {
                &&& plan.state == begun
                &&& plan.response == VolumeCommandResponse::Rejected(
                    VolumeCommandRejection::WrongReplacement,
                )
            }
        }),
{
}

/// Identity, generation and block sizes are fixed by initialization, and the capacity
/// never shrinks.
pub proof fn law_descriptor_is_fixed(state: ControlView, command: VolumeCommand)
    requires
        state.descriptor is Some,
    ensures
        ({
            let before = state.descriptor->0;
            let after = planned(state, command).state.descriptor;
            &&& after is Some
            &&& after->0.id() == before.id()
            &&& after->0.generation_of() == before.generation_of()
            &&& after->0.sizes() == before.sizes()
            &&& after->0.capacity_of().size() >= before.capacity_of().size()
        }),
{
    if let VolumeCommand::Expand(expand) = command {
        state.descriptor->0.lemma_resized(expand.target_capacity);
    }
}

/// An expansion that applies changes the capacity and the revision only.
pub proof fn law_expansion_changes_only_capacity(state: ControlView, command: VolumeCommand)
    requires
        command is Expand,
        applies(state, command),
        has_data(state),
    ensures
        planned(state, command).state == (ControlView {
            descriptor: Some(state.descriptor->0.resized(command->Expand_0.target_capacity)),
            revision: (state.revision + 1) as u64,
            ..state
        }),
        planned(state, command).state.descriptor->0.capacity_of()
            == command->Expand_0.target_capacity,
{
    state.descriptor->0.lemma_resized(command->Expand_0.target_capacity);
}

/// A writer and a recovery are never authorized at the same time, and a retained
/// generation authorizes neither.
pub proof fn law_grants_exclude_each_other(state: ControlView)
    requires
        is_valid(state),
        state.data is Some,
    ensures
        state.data->0.writer is None || state.data->0.recovery is None,
        state.replacement is None || state.data->0.recovery is None,
        state.disposition == VolumeDisposition::Retained ==> state.data->0.writer is None
            && state.data->0.recovery is None && state.replacement is None,
{
}

/// Counters never wrap: where the next value cannot be represented nothing changes.
pub proof fn law_counters_never_wrap(state: ControlView, command: VolumeCommand)
    requires
        has_data(state),
        exhaustion(state, command) is Some,
    ensures
        planned(state, command).state == state,
{
}

} // verus!
