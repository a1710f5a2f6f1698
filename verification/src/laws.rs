//! What holds across the operations of the control plane.
use crate::commands::{can_retire, moved_captures, CommandExecution, PreparedSubmission};
use crate::control::{captures_draft, ComposerControlState, ControlView, MAX_LEASE_COUNT};
use crate::digest::text_digest;
use crate::events::{drifted, settled_fences, settled_leases, sweep, TuiEventDisposition};
use crate::fence::{disclosed, is_disclosed, is_let_go, let_go, only_rises, FenceId, SubmitFence};
use crate::ids::Uuid;
use crate::lease::{unknown_fence, Capture, ExternalLease, ExternalLeaseState, SubmitAttempt};
use crate::ledger::{
    distinct, filed, first_where_meets, holds, index_is, index_of, noted, refiled,
    refiled_keeps_others, retained, retained_are, same_places, without, without_keeps_others,
};
use crate::lifecycle::{
    abandoned_leases, captured_in, committed_leases, lost_by_rollback, pending_leases,
    rolled_lease, rolled_leases,
};
use crate::receipt::{
    CorrectionDispatchOutcome, CorrectionOrigin, CorrectionProposal, PreparedCorrection,
    ReplaceOutcome, SubmissionDispatchOutcome,
};
use crate::settle::witnesses;
use crate::submission::NativeSubmittedLease;
use crate::target::{available_draft, is_input, ComposerControlTarget, SnapshotView, TuiEvent};
use crate::wire::{refused, ComposerCommand, ErrorCode, WireResult};
use vstd::prelude::*;

verus! {

/// The lease is held, and its one submit was not attempted.
pub open spec fn unattempted(leases: Seq<(Uuid, ExternalLease)>, id: Uuid) -> bool {
    holds(leases, id) && filed(leases, id).submit_attempt is None
}

/// No lease forgets that its one submit was attempted, and none appears, unless `renewed` is the
/// identifier of a lease that was made anew.
pub open spec fn attempts_kept(
    before: Seq<(Uuid, ExternalLease)>,
    after: Seq<(Uuid, ExternalLease)>,
    renewed: Option<Uuid>,
) -> bool {
    forall|id: Uuid|
        Some(id) != renewed && #[trigger] unattempted(after, id) ==> unattempted(before, id)
}

/// The identifier of a lease that a command made.
pub open spec fn made_lease(execution: CommandExecution) -> Option<Uuid> {
    match execution {
        CommandExecution::Complete(WireResult::Inserted { lease_id }) => Some(lease_id),
        _ => None,
    }
}

/// Leases that stay in place and keep their attempts forget none.
proof fn attempts_kept_in_place(
    before: Seq<(Uuid, ExternalLease)>,
    after: Seq<(Uuid, ExternalLease)>,
)
    requires
        distinct(before),
        before.len() == after.len(),
        forall|i: int|
            0 <= i < before.len() ==> (#[trigger] after[i]).0 == before[i].0 && (
            before[i].1.submit_attempt is Some ==> after[i].1.submit_attempt is Some),
    ensures
        attempts_kept(before, after, None),
{
    same_places(before, after);
    assert forall|id: Uuid| #[trigger] unattempted(after, id) implies unattempted(before, id) by {
        assert(holds(after, id));
        assert(index_of(after, id) == index_of(before, id));
    }
}

/// A lease that is gone is forgotten whole; the others keep their attempts.
proof fn attempts_kept_without(before: Seq<(Uuid, ExternalLease)>, id: Uuid)
    requires
        distinct(before),
    ensures
        attempts_kept(before, without(before, id), None),
{
    without_keeps_others(before, id);
}

/// A submit of a lease whose submit was attempted before is answered from that attempt, and
/// changes nothing.
pub proof fn an_attempt_is_final<T: ComposerControlTarget>(
    state: ComposerControlState,
    after: ComposerControlState,
    target: &T,
    overlay: bool,
    lease_id: Uuid,
    expected: String,
    execution: CommandExecution,
)
    requires
        state.leased(lease_id),
        !state.direct_sends.reserved(lease_id),
        state.lease(lease_id).submit_attempt is Some,
        state.submit_step(after, target, overlay, lease_id, expected, execution),
    ensures
        after@ == state@,
        execution == CommandExecution::Complete(
            match state.lease(lease_id).submit_attempt {
                Some(SubmitAttempt::Resolved { result, .. }) => result,
                _ => WireResult::Unknown,
            },
        ),
{
}

/// Once a submit of a lease is dispatched, the lease has an attempt: it is dispatched no second
/// time.
pub proof fn a_dispatch_is_an_attempt<T: ComposerControlTarget>(
    state: ComposerControlState,
    after: ComposerControlState,
    target: &T,
    overlay: bool,
    lease_id: Uuid,
    expected: String,
    execution: CommandExecution,
)
    requires
        state.well_formed(),
        state.submit_step(after, target, overlay, lease_id, expected, execution),
        execution is Submit,
    ensures
        after.leased(lease_id),
        after.lease(lease_id).submit_attempt == Some(
            SubmitAttempt::Dispatching { fence: execution->Submit_0.fence },
        ),
{
    refiled_keeps_others(
        state@.leases,
        lease_id,
        state.lease(lease_id).attempted(after.lease(lease_id).submit_attempt),
    );
    refiled_keeps_others(
        state@.leases,
        lease_id,
        state.lease(lease_id).attempted(
            Some(SubmitAttempt::Dispatching { fence: execution->Submit_0.fence }),
        ),
    );
}

/// No command makes a held lease forget that its one submit was attempted.
pub proof fn commands_keep_attempts<T: ComposerControlTarget>(
    state: ComposerControlState,
    after: ComposerControlState,
    target: T,
    after_target: T,
    overlay: bool,
    command: ComposerCommand,
    execution: CommandExecution,
)
    requires
        state.well_formed(),
        state.command_step(after, target, after_target, overlay, command, execution),
    ensures
        attempts_kept(state@.leases, after@.leases, made_lease(execution)),
{
    let leases = state@.leases;
    match command {
        ComposerCommand::AcquireSend => {
            assert(after@.leases == leases);
        },
        ComposerCommand::Capture => {
            assert(after@.leases == leases);
        },
        ComposerCommand::Verify { .. } => {},
        ComposerCommand::Insert { capture_id, text } => {
            match state.insert_refusal(&target, overlay, capture_id) {
                Some(_) => {},
                None => {
                    let draft = available_draft(&target, overlay)->0;
                    let oldest = state.retiring(draft.thread_id) as int;
                    let full = leases.len() >= MAX_LEASE_COUNT;
                    let roomy = if full {
                        leases.remove(oldest)
                    } else {
                        leases
                    };
                    if full {
                        first_where_meets(leases, can_retire(draft.thread_id, state@.fences), 0);
                        index_is(leases, oldest);
                        without_keeps_others(leases, leases[oldest].0);
                        assert(roomy == without(leases, leases[oldest].0));
                    }
                    assert(attempts_kept(leases, roomy, None));
                    if let Some(lease_id) = made_lease(execution) {
                        pushed_keeps_others(roomy, lease_id, after.lease(lease_id));
                        assert forall|id: Uuid|
                            Some(id) != made_lease(execution) && #[trigger] unattempted(
                                after@.leases,
                                id,
                            ) implies unattempted(leases, id) by {
                            assert(holds(after@.leases, id));
                            assert(unattempted(roomy, id));
                        }
                    }
                },
            }
        },
        ComposerCommand::Submit { lease_id, expected } => {
            if !state.direct_sends.reserved(lease_id) && state.leased(lease_id) {
                let attempt = filed(after@.leases, lease_id).submit_attempt;
                match state.submit_decision(&target, overlay, lease_id, expected@) {
                    crate::settle::SubmitDecision::Answer(_) => {},
                    crate::settle::SubmitDecision::Resolve(result, guard) => {
                        refiled_keeps_others(
                            leases,
                            lease_id,
                            state.lease(lease_id).attempted(
                                Some(SubmitAttempt::Resolved { result, guard }),
                            ),
                        );
                    },
                    crate::settle::SubmitDecision::Dispatch(_) => {
                        refiled_keeps_others(
                            leases,
                            lease_id,
                            state.lease(lease_id).attempted(
                                Some(
                                    SubmitAttempt::Dispatching {
                                        fence: FenceId { index: state@.fences.len() as usize },
                                    },
                                ),
                            ),
                        );
                    },
                }
            }
        },
        ComposerCommand::Keep { lease_id } => {
            attempts_kept_without(leases, lease_id);
        },
        ComposerCommand::AcknowledgeUnknown { lease_id } => {
            attempts_kept_without(leases, lease_id);
        },
        ComposerCommand::Replace { lease_id, .. } => {
            attempts_kept_without(leases, lease_id);
        },
    }
}

/// A new entry leaves the others filed as they were.
proof fn pushed_keeps_others(
    entries: Seq<(Uuid, ExternalLease)>,
    id: Uuid,
    lease: ExternalLease,
)
    requires
        distinct(entries),
        !holds(entries, id),
    ensures
        distinct(entries.push((id, lease))),
        forall|other: Uuid|
            other != id ==> #[trigger] holds(entries.push((id, lease)), other) == holds(
                entries,
                other,
            ),
        forall|other: Uuid|
            other != id && holds(entries, other) ==> #[trigger] filed(
                entries.push((id, lease)),
                other,
            ) == filed(entries, other),
{
    let grown = entries.push((id, lease));
    assert forall|i: int, j: int| 0 <= i < j < grown.len() implies (#[trigger] grown[i]).0 != (
    #[trigger] grown[j]).0 by {
        assert(entries[i].0 == grown[i].0);
        if j < entries.len() {
            assert(entries[j].0 == grown[j].0);
        }
    }
    assert forall|other: Uuid| other != id implies #[trigger] holds(grown, other) == holds(
        entries,
        other,
    ) by {
        if holds(entries, other) {
            assert(grown[index_of(entries, other)].0 == other);
        }
        if holds(grown, other) {
            assert(entries[index_of(grown, other)].0 == other);
        }
    }
    assert forall|other: Uuid| other != id && holds(entries, other) implies #[trigger] filed(
        grown,
        other,
    ) == filed(entries, other) by {
        let k = index_of(entries, other);
        assert(grown[k] == entries[k]);
        index_is(grown, k);
    }
}

/// Nothing that becomes of a message makes a held lease forget that its one submit was attempted.
pub proof fn notes_keep_attempts(
    leases: Seq<(Uuid, ExternalLease)>,
    thread_id: Seq<char>,
    submission_id: Uuid,
    submitted_text: String,
    submitted: Seq<NativeSubmittedLease>,
    surviving: Seq<Uuid>,
)
    requires
        distinct(leases),
    ensures
        attempts_kept(
            leases,
            pending_leases(leases, thread_id, submission_id, submitted_text, submitted),
            None,
        ),
        attempts_kept(leases, committed_leases(leases, thread_id, submission_id), None),
        attempts_kept(leases, abandoned_leases(leases, thread_id, submission_id), None),
        attempts_kept(
            leases,
            retained(rolled_leases(leases, thread_id, surviving), lost_by_rollback(thread_id)),
            None,
        ),
{
    attempts_kept_in_place(
        leases,
        pending_leases(leases, thread_id, submission_id, submitted_text, submitted),
    );
    attempts_kept_in_place(leases, committed_leases(leases, thread_id, submission_id));
    attempts_kept_in_place(leases, abandoned_leases(leases, thread_id, submission_id));
    let rolled = rolled_leases(leases, thread_id, surviving);
    attempts_kept_in_place(leases, rolled);
    same_places(leases, rolled);
    let lost = lost_by_rollback(thread_id);
    let left = retained(rolled, lost);
    retained_are(rolled, lost);
    assert forall|id: Uuid| #[trigger] unattempted(left, id) implies unattempted(leases, id) by {
        assert(holds(left, id));
        let at = index_of(left, id);
        assert(rolled.contains(left[at]));
        let from = choose|k: int| 0 <= k < rolled.len() && rolled[k] == left[at];
        index_is(rolled, from);
        assert(unattempted(rolled, id));
    }
}

/// No terminal event makes a lease forget that its one submit was attempted.
pub proof fn events_keep_attempts<T: ComposerControlTarget>(
    state: ComposerControlState,
    after: ComposerControlState,
    event: TuiEvent,
    target: &T,
    dispatch_fence: Option<FenceId>,
    disposition: TuiEventDisposition,
)
    requires
        state.well_formed(),
        state.event_step(after, event, target, dispatch_fence, disposition),
    ensures
        attempts_kept(state@.leases, after@.leases, None),
{
    if let Some(draft) = target.shown_draft() {
        sweeps_keep_attempts(state@.leases, state@.fences, draft, target.submits(event), 0);
    }
    attempts_kept_in_place(state@.leases, after@.leases);
}

/// Nothing that an event leaves behind in the composer makes a lease forget that its one submit
/// was attempted.
pub proof fn routed_events_keep_attempts<T: ComposerControlTarget>(
    state: ComposerControlState,
    after: ComposerControlState,
    target: &T,
)
    requires
        state.well_formed(),
        state.finish_event_step(after, target),
    ensures
        attempts_kept(state@.leases, after@.leases, None),
{
    attempts_kept_in_place(state@.leases, after@.leases);
}

proof fn sweeps_keep_attempts(
    leases: Seq<(Uuid, ExternalLease)>,
    fences: Seq<SubmitFence>,
    draft: SnapshotView,
    submits: bool,
    from: nat,
)
    ensures
        ({
            let swept = sweep(leases, fences, draft, submits, from).leases;
            &&& swept.len() == leases.len()
            &&& forall|i: int|
                0 <= i < leases.len() ==> (#[trigger] swept[i]).0 == leases[i].0 && (
                leases[i].1.submit_attempt is Some ==> swept[i].1.submit_attempt is Some)
        }),
    decreases leases.len() - from,
{
    if from < leases.len() {
        let lease = leases[from as int].1;
        let next = leases.update(from as int, (leases[from as int].0, lease.relinquished()));
        sweeps_keep_attempts(leases, fences, draft, submits, from + 1);
        if let Some(met) = unknown_fence(lease.submit_attempt) {
            let lower = let_go(fences, met);
            sweeps_keep_attempts(next, lower, draft, submits, from + 1);
            let swept = sweep(next, lower, draft, submits, from + 1).leases;
            assert forall|i: int| 0 <= i < leases.len() implies (#[trigger] swept[i]).0
                == leases[i].0 && (leases[i].1.submit_attempt is Some
                ==> swept[i].1.submit_attempt is Some) by {
                assert(next[i].0 == leases[i].0);
                assert(leases[i].1.submit_attempt is Some ==> next[i].1.submit_attempt is Some);
            }
        }
    }
}

/// The admission of a correction makes no held lease forget that its one submit was attempted.
pub proof fn admissions_keep_attempts(
    state: ComposerControlState,
    after: ComposerControlState,
    proposal: CorrectionProposal,
    truncated: bool,
    outcome: ReplaceOutcome,
)
    requires
        state.well_formed(),
        state.admit_step(after, proposal, truncated, outcome),
    ensures
        attempts_kept(state@.leases, after@.leases, None),
{
    if state.leased(proposal.lease_id) {
        refiled_keeps_others(
            state@.leases,
            proposal.lease_id,
            state.lease(proposal.lease_id).in_state(
                ExternalLeaseState::CorrectionPending {
                    receipt: proposal.receipt,
                    correction_id: proposal.correction_id,
                    expected: proposal.expected,
                    replacement: proposal.replacement,
                    payload: proposal.drafts@.last(),
                },
            ),
        );
    }
}

/// The end of a correction makes no held lease forget that its one submit was attempted.
pub proof fn completions_keep_attempts(
    state: ComposerControlState,
    after: ComposerControlState,
    lease_id: Uuid,
    origin: CorrectionOrigin,
    correction_id: Uuid,
    outcome: CorrectionDispatchOutcome,
    result: WireResult,
)
    requires
        state.well_formed(),
        state.finish_correction_step(after, lease_id, origin, correction_id, outcome, result),
    ensures
        attempts_kept(state@.leases, after@.leases, None),
{
    let leases = state@.leases;
    attempts_kept_without(leases, lease_id);
    if state.is_pending_correction(lease_id, correction_id) {
        refiled_keeps_others(
            leases,
            lease_id,
            state.lease(lease_id).in_state(
                ExternalLeaseState::SubmittedIntact {
                    receipt: state.lease(lease_id).state->CorrectionPending_receipt,
                },
            ),
        );
    }
}

/// The end of a dispatch makes no lease forget that its one submit was attempted: it notes how the
/// attempt ended.
pub proof fn ends_keep_attempts(
    state: ComposerControlState,
    after: ComposerControlState,
    pending: PreparedSubmission,
    outcome: SubmissionDispatchOutcome,
    result: WireResult,
)
    requires
        state.well_formed(),
        state.finish_submission_step(after, pending, outcome, result),
    ensures
        attempts_kept(state@.leases, after@.leases, None),
        state.leased(pending.lease_id) ==> after.leased(pending.lease_id) && after.lease(
            pending.lease_id,
        ).submit_attempt is Some,
{
    if state.leased(pending.lease_id) {
        let attempt = Some(
            SubmitAttempt::Resolved {
                result,
                guard: if result == WireResult::Unknown {
                    Some(pending.fence)
                } else {
                    None
                },
            },
        );
        refiled_keeps_others(
            state@.leases,
            pending.lease_id,
            state.lease(pending.lease_id).attempted(attempt),
        );
    }
}

/// A draft is dispatched only where it is exactly what was inserted: in the shown thread, with
/// the whole draft and the cursor as they were and no input since, and with no other message of
/// the thread under way or in doubt.
pub proof fn only_the_exact_draft_is_dispatched<T: ComposerControlTarget>(
    state: ComposerControlState,
    after: ComposerControlState,
    target: &T,
    overlay: bool,
    lease_id: Uuid,
    expected: String,
    execution: CommandExecution,
)
    requires
        state.submit_step(after, target, overlay, lease_id, expected, execution),
        execution is Submit,
    ensures
        state.leased(lease_id),
        state.lease(lease_id).submit_attempt is None,
        state.lease(lease_id).expected_hash == text_digest(expected@),
        available_draft(target, overlay) is Some,
        available_draft(target, overlay)->0.thread_id == state.lease(lease_id).thread_id@,
        witnesses(
            state.lease(lease_id).draft_witness,
            available_draft(target, overlay)->0,
            state.input_epoch,
        ),
        state.lease(lease_id).state == (ExternalLeaseState::Draft {
            native: execution->Submit_0.native,
        }),
        target.owns(execution->Submit_0.native, expected@) is Ok,
        state.thread_fence(state.lease(lease_id).thread_id@) is None,
{
}

/// Any terminal input between a capture and an insertion makes the capture stale: the insertion
/// is refused, and nothing changes.
pub proof fn input_makes_captures_stale<T: ComposerControlTarget>(
    before: ComposerControlState,
    captured: ComposerControlState,
    typed: ComposerControlState,
    after: ComposerControlState,
    draft: SnapshotView,
    capture_id: Uuid,
    target: T,
    after_target: T,
    overlay: bool,
    text: Seq<char>,
    result: WireResult,
)
    requires
        before.well_formed(),
        before.capture_step(
            captured,
            draft,
            before.input_epoch,
            (WireResult::Captured { capture_id }),
        ),
        typed@ == (ControlView {
            input_epoch: captured.input_epoch.wrapping_add(1),
            ..captured@
        }),
        available_draft(&target, overlay) is Some,
        typed.insert_step(after, target, after_target, overlay, capture_id, text, result),
    ensures
        result == refused(ErrorCode::CaptureChanged),
        after@ == typed@,
        after_target == target,
{
    let captures = typed@.captures;
    let pushed = before@.captures.push(captures.last());
    capture_is_found(before, captured, draft, capture_id);
}

/// What was just captured is held, with the draft as it was.
proof fn capture_is_found(
    before: ComposerControlState,
    captured: ComposerControlState,
    draft: SnapshotView,
    capture_id: Uuid,
)
    requires
        before.well_formed(),
        before.capture_step(
            captured,
            draft,
            before.input_epoch,
            (WireResult::Captured { capture_id }),
        ),
    ensures
        holds(captured@.captures, capture_id),
        captures_draft(filed(captured@.captures, capture_id), draft, before.input_epoch),
{
    let captures = captured@.captures;
    let earlier = before@.captures;
    let pushed = earlier.push(captures.last());
    let last = captures.len() - 1;
    assert(captures[last].0 == capture_id);
    assert forall|i: int, j: int| 0 <= i < j < pushed.len() implies (#[trigger] pushed[i]).0 != (
    #[trigger] pushed[j]).0 by {
        assert(earlier[i].0 == pushed[i].0);
        if j < earlier.len() {
            assert(earlier[j].0 == pushed[j].0);
        }
    }
    assert(distinct(captures)) by {
        let skipped = pushed.len() - captures.len();
        assert forall|i: int, j: int| 0 <= i < j < captures.len() implies (
        #[trigger] captures[i]).0 != (#[trigger] captures[j]).0 by {
            assert(captures[i] == pushed[i + skipped]);
            assert(captures[j] == pushed[j + skipped]);
        }
    }
    index_is(captures, last);
}

/// An insertion right after a capture, into the captured draft, is not refused for having
/// changed.
pub proof fn an_unchanged_draft_can_be_inserted_into<T: ComposerControlTarget>(
    before: ComposerControlState,
    captured: ComposerControlState,
    target: &T,
    overlay: bool,
    capture_id: Uuid,
)
    requires
        before.well_formed(),
        available_draft(target, overlay) is Some,
        before.capture_step(
            captured,
            available_draft(target, overlay)->0,
            before.input_epoch,
            (WireResult::Captured { capture_id }),
        ),
    ensures
        captured.insert_refusal(target, overlay, capture_id) != Some(
            refused(ErrorCode::CaptureChanged),
        ),
        captured.insert_refusal(target, overlay, capture_id) != Some(
            refused(ErrorCode::CaptureUnavailable),
        ),
{
    capture_is_found(before, captured, available_draft(target, overlay)->0, capture_id);
}

/// A capture of the draft before it moved is, once moved, a capture of the draft after.
proof fn moved_capture_is_found(
    captures: Seq<(Uuid, Capture)>,
    draft: SnapshotView,
    now: SnapshotView,
    input_epoch: u64,
    id: Uuid,
)
    requires
        distinct(captures),
        holds(captures, id),
        captures_draft(filed(captures, id), draft, input_epoch),
        now.thread_id == draft.thread_id,
    ensures
        holds(moved_captures(captures, draft, Some(now), input_epoch), id),
        captures_draft(
            filed(moved_captures(captures, draft, Some(now), input_epoch), id),
            now,
            input_epoch,
        ),
{
    let moved = moved_captures(captures, draft, Some(now), input_epoch);
    assert forall|i: int| 0 <= i < captures.len() implies (#[trigger] moved[i]).0
        == captures[i].0 by {}
    same_places(captures, moved);
    assert(index_of(moved, id) == index_of(captures, id));
}

/// A capture of the draft that was shown before an insertion is a capture of the draft that is
/// shown after it: what the control plane itself changes makes no capture stale.
pub proof fn captures_follow_insertions<T: ComposerControlTarget>(
    state: ComposerControlState,
    after: ComposerControlState,
    target: T,
    after_target: T,
    overlay: bool,
    capture_id: Uuid,
    text: Seq<char>,
    lease_id: Uuid,
    other: Uuid,
)
    requires
        state.well_formed(),
        state.insert_step(
            after,
            target,
            after_target,
            overlay,
            capture_id,
            text,
            (WireResult::Inserted { lease_id }),
        ),
        other != capture_id,
        holds(state@.captures, other),
        captures_draft(
            filed(state@.captures, other),
            available_draft(&target, overlay)->0,
            state.input_epoch,
        ),
    ensures
        after_target.shown_draft() is Some,
        holds(after@.captures, other),
        captures_draft(
            filed(after@.captures, other),
            after_target.shown_draft()->0,
            state.input_epoch,
        ),
{
    without_keeps_others(state@.captures, capture_id);
    moved_capture_is_found(
        without(state@.captures, capture_id),
        available_draft(&target, overlay)->0,
        after_target.shown_draft()->0,
        state.input_epoch,
        other,
    );
}

/// While a message of a thread is under way or in doubt, no draft of the thread is touched: text
/// is neither inserted into the shown draft, nor let go, nor replaced.
pub proof fn a_guarded_thread_is_not_touched<T: ComposerControlTarget>(
    state: ComposerControlState,
    after: ComposerControlState,
    target: T,
    after_target: T,
    overlay: bool,
    thread_id: Seq<char>,
    command: ComposerCommand,
    execution: CommandExecution,
)
    requires
        state.thread_guarded(thread_id),
        state.command_step(after, target, after_target, overlay, command, execution),
        match command {
            ComposerCommand::Insert { .. } => available_draft(&target, overlay) is Some
                && available_draft(&target, overlay)->0.thread_id == thread_id,
            ComposerCommand::Keep { lease_id }
            | ComposerCommand::Replace { lease_id, .. } => {
                &&& !state.direct_sends.reserved(lease_id)
                &&& !state.direct_sends.kept@.contains(lease_id)
                &&& state.leased(lease_id)
                &&& state.lease(lease_id).state is Draft
                &&& state.lease(lease_id).thread_id@ == thread_id
            },
            _ => false,
        },
    ensures
        after@ == state@,
        after_target == target,
{
}

/// A message that was handed over is not let go, and not corrected, before it is known what became
/// of it.
pub proof fn a_pending_submission_is_held<T: ComposerControlTarget>(
    state: ComposerControlState,
    after: ComposerControlState,
    target: T,
    after_target: T,
    overlay: bool,
    command: ComposerCommand,
    execution: CommandExecution,
)
    requires
        state.command_step(after, target, after_target, overlay, command, execution),
        match command {
            ComposerCommand::Keep { lease_id }
            | ComposerCommand::Replace { lease_id, .. } => {
                &&& !state.direct_sends.reserved(lease_id)
                &&& !state.direct_sends.kept@.contains(lease_id)
                &&& state.leased(lease_id)
                &&& state.lease(lease_id).state is SubmissionPending
            },
            _ => false,
        },
    ensures
        after@ == state@,
        after_target == target,
        execution == CommandExecution::Complete(WireResult::SubmissionPending) || execution
            == CommandExecution::Complete(WireResult::Unknown),
{
}

/// That a message is in model history does not depend on what the composer shows.
pub proof fn submitted_text_is_verified_without_the_composer<T: ComposerControlTarget>(
    state: ComposerControlState,
    target: &T,
    overlay: bool,
    lease_id: Uuid,
    expected: Seq<char>,
)
    requires
        !state.direct_sends.reserved(lease_id),
        state.leased(lease_id),
        state.lease(lease_id).state is SubmittedIntact,
        state.lease(lease_id).expected_hash == text_digest(expected),
    ensures
        state.verify_answer(target, overlay, lease_id, expected) == WireResult::SubmittedIntact,
{
}

/// A message that survives a rollback stays behind the fence that guards its draft.
pub proof fn a_survivor_keeps_its_fence(
    lease: ExternalLease,
    thread_id: Seq<char>,
    surviving: Seq<Uuid>,
)
    requires
        lease.receipt() is Some,
        surviving.contains(lease.receipt()->0.submission_id),
    ensures
        rolled_lease(lease, thread_id, surviving).submit_attempt == lease.submit_attempt,
{
}

/// An accepted correction ends its lease, however late the acceptance comes, unless a newer
/// correction is pending.
pub proof fn an_accepted_correction_ends_its_lease(
    state: ComposerControlState,
    after: ComposerControlState,
    lease_id: Uuid,
    correction_id: Uuid,
    result: WireResult,
)
    requires
        state.well_formed(),
        !state.is_superseded(lease_id, correction_id),
        state.finish_correction_step(
            after,
            lease_id,
            CorrectionOrigin::Composer,
            correction_id,
            CorrectionDispatchOutcome::Accepted,
            result,
        ),
    ensures
        result == WireResult::CorrectionQueued,
        !after.leased(lease_id),
{
    without_keeps_others(state@.leases, lease_id);
}

/// Making room for a new lease never drops one whose message may be on its way: such a lease is
/// held after an insertion as it was before.
pub proof fn pinned_leases_survive_insertion<T: ComposerControlTarget>(
    state: ComposerControlState,
    after: ComposerControlState,
    target: T,
    after_target: T,
    overlay: bool,
    capture_id: Uuid,
    text: Seq<char>,
    result: WireResult,
    pinned: Uuid,
)
    requires
        state.well_formed(),
        state.insert_step(after, target, after_target, overlay, capture_id, text, result),
        state.leased(pinned),
        state.lease(pinned).state is SubmissionPending || state.lease(
            pinned,
        ).state is CorrectionPending || state.lease(pinned).has_unresolved_provenance()
            || state.lease(pinned).has_live_fence(state@.fences),
    ensures
        after.leased(pinned),
        after.lease(pinned) == state.lease(pinned),
{
    let leases = state@.leases;
    if state.insert_refusal(&target, overlay, capture_id) is None {
        let draft = available_draft(&target, overlay)->0;
        let oldest = state.retiring(draft.thread_id) as int;
        let full = leases.len() >= MAX_LEASE_COUNT;
        let roomy = if full {
            leases.remove(oldest)
        } else {
            leases
        };
        if full {
            first_where_meets(leases, can_retire(draft.thread_id, state@.fences), 0);
            index_is(leases, oldest);
            without_keeps_others(leases, leases[oldest].0);
            assert(roomy == without(leases, leases[oldest].0));
            assert(leases[index_of(leases, pinned)].1 == state.lease(pinned));
            assert(leases[oldest].0 != pinned);
        }
        if let WireResult::Inserted { lease_id } = result {
            pushed_keeps_others(roomy, lease_id, after.lease(lease_id));
        }
    }
}

/// To keep a lease a second time is answered as the first, and changes nothing.
pub proof fn keeping_is_idempotent<T: ComposerControlTarget>(
    state: ComposerControlState,
    kept: ComposerControlState,
    after: ComposerControlState,
    target: T,
    kept_target: T,
    later: T,
    after_target: T,
    overlay: bool,
    later_overlay: bool,
    lease_id: Uuid,
    result: WireResult,
)
    requires
        state.well_formed(),
        state.keep_step(kept, target, kept_target, overlay, lease_id, WireResult::Kept),
        kept.keep_step(after, later, after_target, later_overlay, lease_id, result),
    ensures
        result == WireResult::Kept,
        after@ == kept@,
        after_target == later,
{
    let direct = state.direct_sends;
    if direct.reserved(lease_id) || direct.kept@.contains(lease_id) {
        if direct.reserved(lease_id) {
            let entries = direct.reservations.entries@;
            let waiting = crate::direct_send::DirectSendReservation {
                release_on_settle: true,
                ..direct.reservation(lease_id)
            };
            without_keeps_others(entries, lease_id);
            refiled_keeps_others(entries, lease_id, waiting);
            if direct.lets_go(kept.direct_sends, lease_id) {
                noted_is_contained(direct.kept@, lease_id, 256);
            } else {
                let again = refiled(refiled(entries, lease_id, waiting), lease_id, waiting);
                same_places(entries, refiled(entries, lease_id, waiting));
                assert(again =~= refiled(entries, lease_id, waiting));
                assert(after@.direct_sends.reservations =~= kept@.direct_sends.reservations);
            }
        }
    } else {
        if state.leased(lease_id) {
            without_keeps_others(state@.leases, lease_id);
            noted_is_contained(state@.kept_leases, lease_id, MAX_LEASE_COUNT as int);
        }
        assert(kept.direct_sends@ == state.direct_sends@);
    }
}

/// What was just noted is contained.
proof fn noted_is_contained(log: Seq<Uuid>, id: Uuid, limit: int)
    requires
        0 < limit,
        log.len() <= limit,
    ensures
        noted(log, id, limit).contains(id),
{
    if log.contains(id) {
        assert(noted(log, id, limit) =~= log);
    } else {
        let longer = log.push(id);
        let cut = noted(log, id, limit);
        assert(cut[cut.len() - 1] == longer[longer.len() - 1]);
    }
}

/// To acknowledge an unknown outcome a second time is answered as the first, and changes
/// nothing.
pub proof fn acknowledging_is_idempotent<T: ComposerControlTarget>(
    state: ComposerControlState,
    acknowledged: ComposerControlState,
    after: ComposerControlState,
    target: T,
    acknowledged_target: T,
    later: T,
    after_target: T,
    lease_id: Uuid,
    result: WireResult,
)
    requires
        state.well_formed(),
        state.acknowledge_step(
            acknowledged,
            target,
            acknowledged_target,
            lease_id,
            WireResult::UnknownAcknowledged,
        ),
        acknowledged.acknowledge_step(after, later, after_target, lease_id, result),
    ensures
        result == WireResult::UnknownAcknowledged,
        after@ == acknowledged@,
        after_target == later,
{
    let direct = state.direct_sends;
    if direct.reserved(lease_id) || direct.unknown_acknowledged@.contains(lease_id) {
        if direct.reserved(lease_id) {
            without_keeps_others(direct.reservations.entries@, lease_id);
            noted_is_contained(direct.unknown_acknowledged@, lease_id, 256);
        }
    } else {
        if state.leased(lease_id) {
            without_keeps_others(state@.leases, lease_id);
            noted_is_contained(
                state@.unknown_acknowledged_leases,
                lease_id,
                MAX_LEASE_COUNT as int,
            );
        }
        assert(acknowledged.direct_sends@ == state.direct_sends@);
    }
}

/// A completion of a correction that a newer one superseded changes nothing.
pub proof fn a_stale_completion_changes_nothing(
    state: ComposerControlState,
    after: ComposerControlState,
    lease_id: Uuid,
    correction_id: Uuid,
    outcome: CorrectionDispatchOutcome,
    result: WireResult,
)
    requires
        state.is_superseded(lease_id, correction_id),
        state.finish_correction_step(
            after,
            lease_id,
            CorrectionOrigin::Composer,
            correction_id,
            outcome,
            result,
        ),
    ensures
        after@ == state@,
{
}

/// A correction whose outcome is unknown keeps its identity: the same replacement, asked for
/// again, dispatches the very correction that was dispatched first, and changes nothing.
pub proof fn a_correction_is_retried_under_its_identity<T: ComposerControlTarget>(
    state: ComposerControlState,
    proposed: ComposerControlState,
    admitted: ComposerControlState,
    unsettled: ComposerControlState,
    after: ComposerControlState,
    target: T,
    proposed_target: T,
    later: T,
    after_target: T,
    overlay: bool,
    later_overlay: bool,
    lease_id: Uuid,
    expected: String,
    replacement: String,
    proposal: CorrectionProposal,
    correction: PreparedCorrection,
    unknown: WireResult,
    retried: ReplaceOutcome,
)
    requires
        state.well_formed(),
        !state.direct_sends.reserved(lease_id),
        state.replace_step(
            proposed,
            target,
            proposed_target,
            overlay,
            lease_id,
            expected,
            replacement,
            ReplaceOutcome::Propose(proposal),
        ),
        proposed.admit_step(admitted, proposal, false, ReplaceOutcome::Correct(correction)),
        admitted.finish_correction_step(
            unsettled,
            correction.lease_id,
            correction.origin,
            correction.correction_id,
            CorrectionDispatchOutcome::Unknown,
            unknown,
        ),
        unsettled.replace_step(
            after,
            later,
            after_target,
            later_overlay,
            lease_id,
            expected,
            replacement,
            retried,
        ),
    ensures
        unknown == WireResult::CorrectionPending,
        after@ == unsettled@,
        after_target == later,
        retried matches ReplaceOutcome::Correct(again) && again.lease_id == correction.lease_id
            && again.origin == correction.origin && again.thread_id@ == correction.thread_id@
            && again.correction_id == correction.correction_id
            && again.expected_client_user_message_id@
            == correction.expected_client_user_message_id@ && again.payload@
            == correction.payload@,
{
    let lease = proposed.lease(lease_id);
    let next = lease.in_state(
        ExternalLeaseState::CorrectionPending {
            receipt: proposal.receipt,
            correction_id: proposal.correction_id,
            expected: proposal.expected,
            replacement: proposal.replacement,
            payload: proposal.drafts@.last(),
        },
    );
    assert(proposed@ == state@);
    assert(proposed.leased(lease_id));
    refiled_keeps_others(proposed@.leases, lease_id, next);
    assert(unsettled@ == admitted@);
    assert(unsettled.lease(lease_id) == next);
    assert(admitted.direct_sends@ == state.direct_sends@);
    assert(!unsettled.direct_sends.reserved(lease_id));
}

/// A correction that was definitely refused leaves the lease as it was before it was admitted.
pub proof fn a_refused_correction_is_undone(
    state: ComposerControlState,
    admitted: ComposerControlState,
    after: ComposerControlState,
    proposal: CorrectionProposal,
    correction: PreparedCorrection,
    result: WireResult,
)
    requires
        state.well_formed(),
        proposal.origin == CorrectionOrigin::Composer,
        state.leased(proposal.lease_id),
        state.lease(proposal.lease_id).state == (ExternalLeaseState::SubmittedIntact {
            receipt: proposal.receipt,
        }),
        state.admit_step(admitted, proposal, false, ReplaceOutcome::Correct(correction)),
        admitted.finish_correction_step(
            after,
            correction.lease_id,
            correction.origin,
            correction.correction_id,
            CorrectionDispatchOutcome::NotApplied,
            result,
        ),
    ensures
        result == refused(ErrorCode::CorrectionUnavailable),
        after@ == state@,
{
    let id = proposal.lease_id;
    let leases = state@.leases;
    let lease = state.lease(id);
    let pending = lease.in_state(
        ExternalLeaseState::CorrectionPending {
            receipt: proposal.receipt,
            correction_id: proposal.correction_id,
            expected: proposal.expected,
            replacement: proposal.replacement,
            payload: proposal.drafts@.last(),
        },
    );
    refiled_keeps_others(leases, id, pending);
    same_places(leases, refiled(leases, id, pending));
    assert(refiled(refiled(leases, id, pending), id, lease) =~= leases);
    assert(after@.leases =~= leases);
}

/// A rollback of a thread touches nothing of another one, and leaves no draft, no capture and
/// no message in doubt of that thread. What it leaves of the thread survived, or is abandoned.
pub proof fn a_rollback_stays_in_its_thread(
    leases: Seq<(Uuid, ExternalLease)>,
    captures: Seq<(Uuid, Capture)>,
    thread_id: Seq<char>,
    surviving: Seq<Uuid>,
)
    requires
        distinct(leases),
        distinct(captures),
    ensures
        ({
            let left = retained(
                rolled_leases(leases, thread_id, surviving),
                lost_by_rollback(thread_id),
            );
            let captured = retained(captures, captured_in(thread_id));
            &&& forall|i: int|
                0 <= i < leases.len() && (#[trigger] leases[i]).1.thread_id@ != thread_id
                    ==> left.contains(leases[i])
            &&& forall|i: int|
                0 <= i < left.len() && (#[trigger] left[i]).1.thread_id@ != thread_id
                    ==> leases.contains(left[i])
            &&& forall|i: int|
                0 <= i < left.len() && (#[trigger] left[i]).1.thread_id@ == thread_id ==> {
                    &&& left[i].1.receipt() is Some
                    &&& left[i].1.state is SubmissionAbandoned || (surviving.contains(
                        left[i].1.receipt()->0.submission_id,
                    ) && (left[i].1.state is SubmittedIntact
                        || left[i].1.state is CorrectionPending))
                }
            &&& forall|i: int|
                0 <= i < captures.len() && (#[trigger] captures[i]).1.thread_id@ != thread_id
                    ==> captured.contains(captures[i])
            &&& forall|i: int|
                0 <= i < captured.len() ==> (#[trigger] captured[i]).1.thread_id@ != thread_id
                    && captures.contains(captured[i])
        }),
{
    let rolled = rolled_leases(leases, thread_id, surviving);
    let lost = lost_by_rollback(thread_id);
    let left = retained(rolled, lost);
    retained_are(rolled, lost);
    retained_are(captures, captured_in(thread_id));
    assert forall|i: int|
        0 <= i < leases.len() && (#[trigger] leases[i]).1.thread_id@
            != thread_id implies left.contains(leases[i]) by {
        assert(rolled[i] == leases[i]);
        assert(!lost(rolled[i].1));
    }
    assert forall|i: int|
        0 <= i < left.len() && (#[trigger] left[i]).1.thread_id@
            != thread_id implies leases.contains(left[i]) by {
        assert(rolled.contains(left[i]));
        let k = choose|k: int| 0 <= k < rolled.len() && rolled[k] == left[i];
        assert(rolled[k].1.thread_id == leases[k].1.thread_id);
        assert(leases[k] == left[i]);
    }
    assert forall|i: int|
        0 <= i < left.len() && (#[trigger] left[i]).1.thread_id@ == thread_id implies {
        &&& left[i].1.receipt() is Some
        &&& left[i].1.state is SubmissionAbandoned || (surviving.contains(
            left[i].1.receipt()->0.submission_id,
        ) && (left[i].1.state is SubmittedIntact || left[i].1.state is CorrectionPending))
    } by {
        assert(rolled.contains(left[i]));
        let k = choose|k: int| 0 <= k < rolled.len() && rolled[k] == left[i];
        assert(rolled[k].1.thread_id == leases[k].1.thread_id);
        assert(!lost(left[i].1));
        assert(left[i].1.state !is Draft);
    }
}

/// What becomes of a message changes only the leases of its thread.
pub proof fn notes_stay_in_their_thread(
    leases: Seq<(Uuid, ExternalLease)>,
    thread_id: Seq<char>,
    submission_id: Uuid,
    submitted_text: String,
    submitted: Seq<NativeSubmittedLease>,
    i: int,
)
    requires
        0 <= i < leases.len(),
        leases[i].1.thread_id@ != thread_id,
    ensures
        pending_leases(leases, thread_id, submission_id, submitted_text, submitted)[i]
            == leases[i],
        committed_leases(leases, thread_id, submission_id)[i] == leases[i],
        abandoned_leases(leases, thread_id, submission_id)[i] == leases[i],
{
}

/// A terminal event that leaves the shown draft as each doubtful message of its thread was sent
/// with, changes nothing: nothing in doubt is given up by a global shortcut, a refused action, or
/// a switch to another thread.
pub proof fn an_unmoved_draft_stays_fenced<T: ComposerControlTarget>(
    state: ComposerControlState,
    after: ComposerControlState,
    target: &T,
)
    requires
        state.finish_event_step(after, target),
        target.shown_draft() is Some ==> forall|i: int|
            0 <= i < state@.leases.len() ==> !drifted(
                (#[trigger] state@.leases[i]).1,
                target.shown_draft()->0,
            ),
    ensures
        after@ == state@,
{
    if let Some(draft) = target.shown_draft() {
        assert(settled_leases(state@.leases, draft) =~= state@.leases);
        nothing_drifts(state@.leases, state@.fences, draft, state@.leases.len() as int);
    }
}

proof fn nothing_drifts(
    leases: Seq<(Uuid, ExternalLease)>,
    fences: Seq<SubmitFence>,
    draft: SnapshotView,
    count: int,
)
    requires
        count <= leases.len(),
        forall|i: int| 0 <= i < leases.len() ==> !drifted((#[trigger] leases[i]).1, draft),
    ensures
        settled_fences(leases, fences, draft, count) == fences,
    decreases count,
{
    if count > 0 {
        nothing_drifts(leases, fences, draft, count - 1);
    }
}

/// A lease of another thread than the shown one keeps its place and its doubt through any event.
pub proof fn events_stay_in_the_shown_thread<T: ComposerControlTarget>(
    state: ComposerControlState,
    after: ComposerControlState,
    target: &T,
    i: int,
)
    requires
        state.finish_event_step(after, target),
        0 <= i < state@.leases.len(),
        target.shown_draft() is Some ==> target.shown_draft()->0.thread_id
            != state@.leases[i].1.thread_id@,
    ensures
        after@.leases[i] == state@.leases[i],
{
}

/// While the shown draft is the one that a message in doubt was sent with, no event submits it:
/// an event that would is blocked.
pub proof fn a_draft_in_doubt_is_not_submitted<T: ComposerControlTarget>(
    state: ComposerControlState,
    after: ComposerControlState,
    event: TuiEvent,
    target: &T,
    disposition: TuiEventDisposition,
    at: int,
    fence: FenceId,
)
    requires
        is_input(event),
        target.submits(event),
        state.event_step(after, event, target, None, disposition),
        target.shown_draft() is Some,
        0 <= at < state@.leases.len(),
        state@.leases[at].1.thread_id@ == target.shown_draft()->0.thread_id,
        unknown_fence(state@.leases[at].1.submit_attempt) == Some(fence),
        !is_let_go(state@.fences, fence),
        forall|i: int|
            0 <= i < state@.leases.len() && unknown_fence(
                (#[trigger] state@.leases[i]).1.submit_attempt,
            ) == Some(fence) ==> !drifted(state@.leases[i].1, target.shown_draft()->0),
    ensures
        disposition is BlockUnknownSubmission,
{
    a_sweep_stops_at_doubt(
        state@.leases,
        state@.fences,
        target.shown_draft()->0,
        fence,
        at,
        0,
    );
}

proof fn a_sweep_stops_at_doubt(
    leases: Seq<(Uuid, ExternalLease)>,
    fences: Seq<SubmitFence>,
    draft: SnapshotView,
    fence: FenceId,
    at: int,
    from: nat,
)
    requires
        from <= at < leases.len(),
        leases[at].1.thread_id@ == draft.thread_id,
        unknown_fence(leases[at].1.submit_attempt) == Some(fence),
        !is_let_go(fences, fence),
        forall|i: int|
            0 <= i < leases.len() && unknown_fence((#[trigger] leases[i]).1.submit_attempt)
                == Some(fence) ==> !drifted(leases[i].1, draft),
    ensures
        sweep(leases, fences, draft, true, from).blocked is Some,
    decreases at - from,
{
    let lease = leases[from as int].1;
    if let Some(met) = unknown_fence(lease.submit_attempt) {
        if lease.thread_id@ == draft.thread_id && (is_let_go(fences, met)
            || lease.draft_witness.text_hash != text_digest(draft.text)) {
            assert(met != fence);
            let next = leases.update(from as int, (leases[from as int].0, lease.relinquished()));
            assert forall|i: int|
                0 <= i < next.len() && unknown_fence((#[trigger] next[i]).1.submit_attempt)
                    == Some(fence) implies !drifted(next[i].1, draft) by {
                if i != from {
                    assert(next[i] == leases[i]);
                }
            }
            a_sweep_stops_at_doubt(next, let_go(fences, met), draft, fence, at, from + 1);
        } else if lease.thread_id@ != draft.thread_id {
            a_sweep_stops_at_doubt(leases, fences, draft, fence, at, from + 1);
        }
    } else {
        a_sweep_stops_at_doubt(leases, fences, draft, fence, at, from + 1);
    }
}

/// The user is told at most once that a message is in doubt: a fence that was disclosed stays so.
pub proof fn a_fence_is_disclosed_once(fences: Seq<SubmitFence>, later: Seq<SubmitFence>, id: FenceId)
    requires
        only_rises(disclosed(fences, id), later),
        id.index < fences.len(),
    ensures
        is_disclosed(later, id),
{
    let now = disclosed(fences, id);
    assert(now[id.index as int].disclosed);
}

/// Terminal events only ever let fences go and disclose them.
pub proof fn events_only_raise_fences<T: ComposerControlTarget>(
    state: ComposerControlState,
    after: ComposerControlState,
    event: TuiEvent,
    target: &T,
    dispatch_fence: Option<FenceId>,
    disposition: TuiEventDisposition,
)
    requires
        state.event_step(after, event, target, dispatch_fence, disposition),
    ensures
        only_rises(state@.fences, after@.fences),
{
    if let Some(draft) = target.shown_draft() {
        sweeps_only_raise_fences(
            state@.leases,
            state@.fences,
            draft,
            target.submits(event),
            0,
        );
    }
}

proof fn sweeps_only_raise_fences(
    leases: Seq<(Uuid, ExternalLease)>,
    fences: Seq<SubmitFence>,
    draft: SnapshotView,
    submits: bool,
    from: nat,
)
    ensures
        only_rises(fences, sweep(leases, fences, draft, submits, from).fences),
    decreases leases.len() - from,
{
    if from < leases.len() {
        let lease = leases[from as int].1;
        let next = leases.update(from as int, (leases[from as int].0, lease.relinquished()));
        sweeps_only_raise_fences(leases, fences, draft, submits, from + 1);
        if let Some(met) = unknown_fence(lease.submit_attempt) {
            sweeps_only_raise_fences(next, let_go(fences, met), draft, submits, from + 1);
            let lower = let_go(fences, met);
            let swept = sweep(next, lower, draft, submits, from + 1).fences;
            assert forall|i: int| 0 <= i < fences.len() implies ((
            #[trigger] fences[i]).relinquished ==> swept[i].relinquished) && (
            fences[i].disclosed ==> swept[i].disclosed) by {
                assert(lower[i].disclosed == fences[i].disclosed);
            }
        }
    }
}

} // verus!
