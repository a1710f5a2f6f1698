//! What holds over any sequence of calls of the control plane.
use crate::commands::{CommandExecution, PreparedSubmission};
use crate::control::{ComposerControlState, ControlView};
use crate::direct_send::{DirectPreparedSubmission, DirectSendReservations};
use crate::events::TuiEventDisposition;
use crate::fence::FenceId;
use crate::ids::Uuid;
use crate::laws::{
    a_dispatch_is_an_attempt, admissions_keep_attempts, attempts_kept, commands_keep_attempts,
    completions_keep_attempts, ends_keep_attempts, events_keep_attempts, notes_keep_attempts,
    routed_events_keep_attempts, unattempted,
};
use crate::lease::ExternalLease;
use crate::ledger::same_places;
use crate::receipt::{
    CorrectionDispatchOutcome, CorrectionOrigin, CorrectionProposal, ReplaceOutcome,
    SubmissionDispatchOutcome,
};
use crate::requests::replacement_execution;
use crate::send_laws::{
    a_reservation_is_dispatched_at_most_once, acquiring_keeps_spent, direct_steps_keep_spent,
    is_direct_step, rollbacks_keep_spent, spent_stays_spent, unspent,
};
use crate::submission::{NativeComposerSubmission, NativeSubmittedLease};
use crate::target::{available_draft, ComposerControlTarget, SnapshotView, TuiEvent};
use crate::wire::{ComposerCommand, WireResult};
use vstd::prelude::*;

verus! {

/// One call that may change the control plane: what it is given and what it answers.
#[allow(inconsistent_fields)]
pub enum ControlStep<T> {
    Command {
        target: T,
        after_target: T,
        overlay: bool,
        command: ComposerCommand,
        execution: CommandExecution,
    },
    /// A send is acquired from a frozen composer.
    AcquireFrozen {
        draft: Option<SnapshotView>,
        direct_open: bool,
        plain_open: bool,
        input_epoch: u64,
        result: WireResult,
    },
    /// The draft of a frozen composer is captured.
    CaptureFrozen { draft: SnapshotView, input_epoch: u64, result: WireResult },
    /// Input or messages are counted, or the call is refused before it changes anything.
    Count,
    Event {
        event: TuiEvent,
        target: T,
        dispatch_fence: Option<FenceId>,
        disposition: TuiEventDisposition,
    },
    FinishEvent { target: T },
    FinishSubmission {
        pending: PreparedSubmission,
        outcome: SubmissionDispatchOutcome,
        result: WireResult,
    },
    FinishDirectSubmission {
        pending: DirectPreparedSubmission,
        outcome: SubmissionDispatchOutcome,
        result: WireResult,
    },
    AdmitCorrection { proposal: CorrectionProposal, truncated: bool, outcome: ReplaceOutcome },
    FinishCorrection {
        lease_id: Uuid,
        origin: CorrectionOrigin,
        correction_id: Uuid,
        outcome: CorrectionDispatchOutcome,
        result: WireResult,
    },
    Pending { submission: NativeComposerSubmission },
    PendingByNative {
        thread_id: Seq<char>,
        submission_id: Uuid,
        submitted_text: String,
        leases: Seq<NativeSubmittedLease>,
    },
    Committed { submission: NativeComposerSubmission },
    CommittedId { thread_id: Seq<char>, submission_id: Uuid },
    Abandoned { submission: NativeComposerSubmission },
    AbandonedId { thread_id: Seq<char>, submission_id: Uuid },
    RolledBack { thread_id: Seq<char>, surviving: Seq<Uuid> },
}

impl<T: ComposerControlTarget> ControlStep<T> {
    /// The call takes `before` to `after`.
    pub open spec fn leads(self, before: ComposerControlState, after: ComposerControlState) -> bool {
        match self {
            ControlStep::Command { target, after_target, overlay, command, execution } =>
                before.command_step(after, target, after_target, overlay, command, execution),
            ControlStep::AcquireFrozen { draft, direct_open, plain_open, input_epoch, result } =>
                before.acquire_step(after, draft, direct_open, plain_open, input_epoch, result),
            ControlStep::CaptureFrozen { draft, input_epoch, result } => before.capture_step(
                after,
                draft,
                input_epoch,
                result,
            ),
            ControlStep::Count => after@ == (ControlView {
                input_epoch: after.input_epoch,
                user_chronology_epoch: after.user_chronology_epoch,
                ..before@
            }),
            ControlStep::Event { event, target, dispatch_fence, disposition } => before.event_step(
                after,
                event,
                &target,
                dispatch_fence,
                disposition,
            ),
            ControlStep::FinishEvent { target } => before.finish_event_step(after, &target),
            ControlStep::FinishSubmission { pending, outcome, result } =>
                before.finish_submission_step(after, pending, outcome, result),
            ControlStep::FinishDirectSubmission { pending, outcome, result } =>
                before.finish_direct_submission_step(after, pending, outcome, result),
            ControlStep::AdmitCorrection { proposal, truncated, outcome } => before.admit_step(
                after,
                proposal,
                truncated,
                outcome,
            ),
            ControlStep::FinishCorrection { lease_id, origin, correction_id, outcome, result } =>
                before.finish_correction_step(
                    after,
                    lease_id,
                    origin,
                    correction_id,
                    outcome,
                    result,
                ),
            ControlStep::Pending { submission } => before.pending_step(after, submission),
            ControlStep::PendingByNative { thread_id, submission_id, submitted_text, leases } =>
                before.pending_by_native_step(
                    after,
                    thread_id,
                    submission_id,
                    submitted_text,
                    leases,
                ),
            ControlStep::Committed { submission } => before.committed_step(after, submission),
            ControlStep::CommittedId { thread_id, submission_id } => before.committed_id_step(
                after,
                thread_id,
                submission_id,
            ),
            ControlStep::Abandoned { submission } => before.abandoned_step(after, submission),
            ControlStep::AbandonedId { thread_id, submission_id } => before.abandoned_id_step(
                after,
                thread_id,
                submission_id,
            ),
            ControlStep::RolledBack { thread_id, surviving } => before.rollback_step(
                after,
                thread_id,
                surviving,
            ),
        }
    }

    /// The identifier of a lease or a reservation that the call made.
    pub open spec fn drawn(self) -> Option<Uuid> {
        match self {
            ControlStep::Command {
                execution: CommandExecution::Complete(WireResult::Inserted { lease_id }),
                ..
            } => Some(lease_id),
            ControlStep::Command {
                execution: CommandExecution::Complete(WireResult::Reserved { lease_id }),
                ..
            } => Some(lease_id),
            ControlStep::AcquireFrozen { result: WireResult::Reserved { lease_id }, .. } => Some(
                lease_id,
            ),
            _ => None,
        }
    }

    /// The call asks for the submit of `lease_id`.
    pub open spec fn submits(self, lease_id: Uuid) -> bool {
        &&& self matches ControlStep::Command { command, .. }
        &&& command matches ComposerCommand::Submit { lease_id: id, .. }
        &&& id == lease_id
    }

    /// The call hands the message of `lease_id` over for dispatch.
    pub open spec fn dispatches(self, lease_id: Uuid) -> bool {
        self.submits(lease_id) && !(self->Command_execution is Complete)
    }
}

/// Neither a lease nor a reservation under `id` can be dispatched.
pub open spec fn is_spent(state: ComposerControlState, id: Uuid) -> bool {
    !unattempted(state@.leases, id) && !unspent(state.direct_sends, id)
}

/// The calls `steps` lead from each of `states` to the next.
pub open spec fn is_trace<T: ComposerControlTarget>(
    states: Seq<ComposerControlState>,
    steps: Seq<ControlStep<T>>,
) -> bool {
    &&& states.len() == steps.len() + 1
    &&& forall|i: int| 0 <= i < states.len() ==> (#[trigger] states[i]).well_formed()
    &&& forall|i: int|
        0 <= i < steps.len() ==> (#[trigger] steps[i]).leads(states[i], states[i + 1])
}

/// A table whose reservations are the same forgets nothing.
proof fn same_reservations_stay_spent(
    before: DirectSendReservations,
    after: DirectSendReservations,
    renewed: Option<Uuid>,
)
    requires
        after.reservations.entries@ == before.reservations.entries@,
    ensures
        spent_stays_spent(before, after, renewed),
{
    assert forall|id: Uuid| Some(id) != renewed && #[trigger] unspent(after, id) implies unspent(
        before,
        id,
    ) by {}
}

/// No command makes a reservation one that was never submitted, but for a new one.
proof fn commands_keep_spent<T: ComposerControlTarget>(
    before: ComposerControlState,
    after: ComposerControlState,
    target: T,
    after_target: T,
    overlay: bool,
    command: ComposerCommand,
    execution: CommandExecution,
)
    requires
        before.well_formed(),
        before.command_step(after, target, after_target, overlay, command, execution),
    ensures
        spent_stays_spent(
            before.direct_sends,
            after.direct_sends,
            ControlStep::Command { target, after_target, overlay, command, execution }.drawn(),
        ),
{
    let old_table = before.direct_sends;
    let new_table = after.direct_sends;
    let drawn = ControlStep::Command { target, after_target, overlay, command, execution }.drawn();
    if after@.direct_sends.reservations == before@.direct_sends.reservations {
        same_reservations_stay_spent(old_table, new_table, drawn);
    } else {
        match command {
            ComposerCommand::AcquireSend => {
                let draft = available_draft(&target, overlay)->0;
                acquiring_keeps_spent(
                    old_table,
                    new_table,
                    draft.thread_id,
                    before.user_chronology_epoch,
                    execution->Complete_0,
                );
            },
            ComposerCommand::Submit { lease_id, expected } => {
                let prepared = match execution {
                    CommandExecution::SubmitDirect(ready) => Ok(ready),
                    _ => Err(execution->Complete_0),
                };
                a_reservation_is_dispatched_at_most_once(
                    old_table,
                    new_table,
                    lease_id,
                    expected,
                    target.shown_thread(),
                    before.user_chronology_epoch,
                    prepared,
                );
            },
            ComposerCommand::Keep { lease_id } => {
                assert(old_table.keep_step(new_table, lease_id, execution->Complete_0));
                direct_steps_keep_spent(old_table, new_table);
            },
            ComposerCommand::AcknowledgeUnknown { lease_id } => {
                assert(old_table.acknowledge_step(new_table, lease_id, execution->Complete_0));
                direct_steps_keep_spent(old_table, new_table);
            },
            ComposerCommand::Replace { lease_id, expected, replacement } => {
                let outcome = choose|outcome: ReplaceOutcome|
                    execution == replacement_execution(outcome) && #[trigger] before.replace_step(
                        after,
                        target,
                        after_target,
                        overlay,
                        lease_id,
                        expected,
                        replacement,
                        outcome,
                    );
                assert(old_table.replace_step(new_table, lease_id, expected, replacement, outcome));
                direct_steps_keep_spent(old_table, new_table);
            },
            _ => {},
        }
    }
}

/// A message that was handed over, and then came into model history or will not.
proof fn settled_messages_stay_spent(
    before: DirectSendReservations,
    pending: DirectSendReservations,
    after: DirectSendReservations,
)
    requires
        before.well_formed(),
        pending.well_formed(),
        is_direct_step(before, pending),
        is_direct_step(pending, after),
    ensures
        spent_stays_spent(before, after, None),
{
    direct_steps_keep_spent(before, pending);
    direct_steps_keep_spent(pending, after);
    assert forall|id: Uuid| #[trigger] unspent(after, id) implies unspent(before, id) by {
        assert(unspent(pending, id));
    }
}

/// Keeping attempts twice is keeping them.
proof fn attempts_kept_twice(
    before: Seq<(Uuid, ExternalLease)>,
    between: Seq<(Uuid, ExternalLease)>,
    after: Seq<(Uuid, ExternalLease)>,
)
    requires
        attempts_kept(before, between, None),
        attempts_kept(between, after, None),
    ensures
        attempts_kept(before, after, None),
{
    assert forall|id: Uuid| #[trigger] unattempted(after, id) implies unattempted(before, id) by {
        assert(unattempted(between, id));
    }
}

/// What becomes of the leases and reservations of `submission`.
proof fn notes_keep_all(
    before: ComposerControlState,
    after: ComposerControlState,
    submission: NativeComposerSubmission,
)
    requires
        before.well_formed(),
        before.pending_step(after, submission) || before.committed_step(after, submission)
            || before.abandoned_step(after, submission),
    ensures
        attempts_kept(before@.leases, after@.leases, None),
        spent_stays_spent(before.direct_sends, after.direct_sends, None),
{
    let table = before.direct_sends;
    let leases = before.leases_pending(submission);
    notes_keep_attempts(
        before@.leases,
        submission.thread_id@,
        submission.submission_id,
        submission.submitted_text,
        submission.leases@,
        Seq::empty(),
    );
    same_places(before@.leases, leases);
    notes_keep_attempts(
        leases,
        submission.thread_id@,
        submission.submission_id,
        submission.submitted_text,
        submission.leases@,
        Seq::empty(),
    );
    if before.pending_step(after, submission) {
        assert(table.pending_step(after.direct_sends, submission@));
        direct_steps_keep_spent(table, after.direct_sends);
    } else if before.committed_step(after, submission) {
        attempts_kept_twice(before@.leases, leases, after@.leases);
        let pending = choose|pending: DirectSendReservations|
            #[trigger] table.pending_step(pending, submission@) && pending.well_formed()
                && pending.committed_step(after.direct_sends, submission@);
        settled_messages_stay_spent(table, pending, after.direct_sends);
    } else {
        attempts_kept_twice(before@.leases, leases, after@.leases);
        let pending = choose|pending: DirectSendReservations|
            #[trigger] table.pending_step(pending, submission@) && pending.well_formed()
                && pending.abandoned_step(after.direct_sends, submission@);
        settled_messages_stay_spent(table, pending, after.direct_sends);
    }
}

/// No call makes what was dispatched something that can be dispatched, but for a lease or a
/// reservation that it makes anew.
pub proof fn steps_keep_spent<T: ComposerControlTarget>(
    step: ControlStep<T>,
    before: ComposerControlState,
    after: ComposerControlState,
)
    requires
        before.well_formed(),
        step.leads(before, after),
    ensures
        attempts_kept(before@.leases, after@.leases, step.drawn()),
        spent_stays_spent(before.direct_sends, after.direct_sends, step.drawn()),
{
    let old_table = before.direct_sends;
    let new_table = after.direct_sends;
    if after@.direct_sends.reservations == before@.direct_sends.reservations {
        same_reservations_stay_spent(old_table, new_table, step.drawn());
    }
    match step {
        ControlStep::Command { target, after_target, overlay, command, execution } => {
            commands_keep_attempts(
                before,
                after,
                target,
                after_target,
                overlay,
                command,
                execution,
            );
            commands_keep_spent(before, after, target, after_target, overlay, command, execution);
        },
        ControlStep::AcquireFrozen { draft, direct_open, plain_open, input_epoch, result } => {
            assert(after@.leases == before@.leases);
            if after@.direct_sends.reservations != before@.direct_sends.reservations {
                acquiring_keeps_spent(
                    old_table,
                    new_table,
                    draft->0.thread_id,
                    before.user_chronology_epoch,
                    result,
                );
            }
        },
        ControlStep::CaptureFrozen { .. } => {},
        ControlStep::Count => {},
        ControlStep::Event { event, target, dispatch_fence, disposition } => {
            events_keep_attempts(before, after, event, &target, dispatch_fence, disposition);
        },
        ControlStep::FinishEvent { target } => {
            routed_events_keep_attempts(before, after, &target);
        },
        ControlStep::FinishSubmission { pending, outcome, result } => {
            ends_keep_attempts(before, after, pending, outcome, result);
        },
        ControlStep::FinishDirectSubmission { pending, outcome, result } => {
            assert(old_table.finish_submission_step(
                new_table,
                pending.reservation_id,
                pending.submission.submission_id,
                outcome,
                result,
            ));
            direct_steps_keep_spent(old_table, new_table);
        },
        ControlStep::AdmitCorrection { proposal, truncated, outcome } => {
            admissions_keep_attempts(before, after, proposal, truncated, outcome);
            if after@.direct_sends.reservations != before@.direct_sends.reservations {
                assert(old_table.admit_step(new_table, proposal, truncated, outcome));
                direct_steps_keep_spent(old_table, new_table);
            }
        },
        ControlStep::FinishCorrection { lease_id, origin, correction_id, outcome, result } => {
            completions_keep_attempts(
                before,
                after,
                lease_id,
                origin,
                correction_id,
                outcome,
                result,
            );
            if after@.direct_sends.reservations != before@.direct_sends.reservations {
                assert(old_table.finish_correction_step(
                    new_table,
                    lease_id,
                    correction_id,
                    outcome,
                    result,
                ));
                direct_steps_keep_spent(old_table, new_table);
            }
        },
        ControlStep::Pending { submission } => {
            notes_keep_all(before, after, submission);
        },
        ControlStep::Committed { submission } => {
            notes_keep_all(before, after, submission);
        },
        ControlStep::Abandoned { submission } => {
            notes_keep_all(before, after, submission);
        },
        ControlStep::PendingByNative { thread_id, submission_id, submitted_text, leases } => {
            notes_keep_attempts(
                before@.leases,
                thread_id,
                submission_id,
                submitted_text,
                leases,
                Seq::empty(),
            );
        },
        ControlStep::CommittedId { thread_id, submission_id } => {
            notes_keep_attempts(
                before@.leases,
                thread_id,
                submission_id,
                arbitrary(),
                Seq::empty(),
                Seq::empty(),
            );
        },
        ControlStep::AbandonedId { thread_id, submission_id } => {
            notes_keep_attempts(
                before@.leases,
                thread_id,
                submission_id,
                arbitrary(),
                Seq::empty(),
                Seq::empty(),
            );
        },
        ControlStep::RolledBack { thread_id, surviving } => {
            notes_keep_attempts(
                before@.leases,
                thread_id,
                0,
                arbitrary(),
                Seq::empty(),
                surviving,
            );
            rollbacks_keep_spent(old_table, new_table, thread_id, surviving);
        },
    }
}

/// What is dispatched could be dispatched before, and cannot be after.
pub proof fn a_dispatch_spends<T: ComposerControlTarget>(
    step: ControlStep<T>,
    before: ComposerControlState,
    after: ComposerControlState,
    lease_id: Uuid,
)
    requires
        before.well_formed(),
        step.leads(before, after),
        step.dispatches(lease_id),
    ensures
        !is_spent(before, lease_id),
        !(before.leased(lease_id) && before.direct_sends.reserved(lease_id)) ==> is_spent(
            after,
            lease_id,
        ),
{
    if let ControlStep::Command { target, overlay, command, execution, .. } = step {
        if let ComposerCommand::Submit { expected, .. } = command {
            match execution {
                CommandExecution::Submit(_) => {
                    a_dispatch_is_an_attempt(
                        before,
                        after,
                        &target,
                        overlay,
                        lease_id,
                        expected,
                        execution,
                    );
                },
                CommandExecution::SubmitDirect(ready) => {
                    a_reservation_is_dispatched_at_most_once(
                        before.direct_sends,
                        after.direct_sends,
                        lease_id,
                        expected,
                        target.shown_thread(),
                        before.user_chronology_epoch,
                        Ok(ready),
                    );
                },
                _ => {},
            }
        }
    }
}

/// What is spent stays spent while no lease or reservation is made under its identifier.
proof fn traces_keep_spent<T: ComposerControlTarget>(
    states: Seq<ComposerControlState>,
    steps: Seq<ControlStep<T>>,
    from: int,
    to: int,
    lease_id: Uuid,
)
    requires
        is_trace(states, steps),
        0 <= from <= to <= steps.len(),
        is_spent(states[from], lease_id),
        forall|k: int| from <= k < to ==> (#[trigger] steps[k]).drawn() != Some(lease_id),
    ensures
        is_spent(states[to], lease_id),
    decreases to - from,
{
    if from < to {
        traces_keep_spent(states, steps, from, to - 1, lease_id);
        let step = steps[to - 1];
        assert(step.leads(states[to - 1], states[to]));
        assert(states[to - 1].well_formed());
        steps_keep_spent(step, states[to - 1], states[to]);
        assert(unattempted(states[to]@.leases, lease_id) ==> unattempted(
            states[to - 1]@.leases,
            lease_id,
        ));
        assert(unspent(states[to].direct_sends, lease_id) ==> unspent(
            states[to - 1].direct_sends,
            lease_id,
        ));
    }
}

/// Of any sequence of calls, at most one submit hands the message of a lease or a reservation over
/// for dispatch: every later submit of it, whatever its text, is answered at once, unless a new
/// lease or reservation was made under its identifier in between. An identifier that is in use
/// for a lease and for a reservation at a time names two messages, and is left out.
pub proof fn a_message_is_dispatched_at_most_once<T: ComposerControlTarget>(
    states: Seq<ComposerControlState>,
    steps: Seq<ControlStep<T>>,
    first: int,
    later: int,
    lease_id: Uuid,
)
    requires
        is_trace(states, steps),
        0 <= first < later < steps.len(),
        steps[first].dispatches(lease_id),
        !(states[first].leased(lease_id) && states[first].direct_sends.reserved(lease_id)),
        forall|k: int| first < k < later ==> (#[trigger] steps[k]).drawn() != Some(lease_id),
        steps[later].submits(lease_id),
    ensures
        steps[later]->Command_execution is Complete,
{
    assert(steps[first].leads(states[first], states[first + 1]));
    assert(states[first].well_formed());
    a_dispatch_spends(steps[first], states[first], states[first + 1], lease_id);
    traces_keep_spent(states, steps, first + 1, later, lease_id);
    if steps[later].dispatches(lease_id) {
        assert(states[later].well_formed());
        a_dispatch_spends(steps[later], states[later], states[later + 1], lease_id);
    }
}

} // verus!
