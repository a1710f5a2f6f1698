//! What each command of the control plane answers, and what it leaves as it was.
use crate::commands::{CommandExecution, PreparedSubmission};
use crate::control::{
    captures_draft, evict_oldest, evicted, fresh_id, ComposerControlRequest, ComposerControlState,
    FrozenComposerAcquisition,
};
use crate::digest::{text_digest, TextDigest};
use crate::fence::FenceId;
use crate::hunks::cannot_spell;
use crate::ids::Uuid;
use crate::lease::{Capture, ExternalLease, ExternalLeaseState, SubmitAttempt};
use crate::ledger::{
    distinct, filed, holds, index_is, index_of, refiled_keeps_others, without,
    without_keeps_others, Ledger,
};
use crate::receipt::ReplaceOutcome;
use crate::requests::{PendingComposerControlAction, RequestOutcome};
use crate::submission::ComposerLeaseId;
use crate::target::{
    available_draft, map_lease_error, snapshot_view, ComposerControlTarget, ComposerLeaseError,
    SnapshotView, TuiEvent,
};
use crate::wire::{ComposerCommand, ErrorCode, MutationOutcome, WireResult};
use vstd::prelude::*;
use vstd::string::*;

verus! {

/// A refusal that had no effect, with its reason.
pub open spec fn refused_for(code: ErrorCode) -> WireResult {
    WireResult::Error { code, outcome: MutationOutcome::NotApplied }
}

/// Each refusal of the composer is reported as what it is.
pub proof fn refusals_of_the_composer_are_told_apart(
    a: ComposerLeaseError,
    b: ComposerLeaseError,
    code_a: ErrorCode,
    code_b: ErrorCode,
)
    requires
        call_ensures(map_lease_error, (a,), code_a),
        call_ensures(map_lease_error, (b,), code_b),
    ensures
        code_a == code_b <==> a == b,
        a == ComposerLeaseError::EmptyText <==> code_a == ErrorCode::InvalidText,
        a == ComposerLeaseError::LeaseUnavailable <==> code_a == ErrorCode::LeaseUnavailable,
        a == ComposerLeaseError::ExpectedTextMismatch <==> code_a == ErrorCode::ExpectedMismatch,
        a == ComposerLeaseError::CursorConflicts <==> code_a == ErrorCode::CursorConflict,
{
}

/// A state that was made is empty, and counts the chronology from where it was told to.
pub proof fn a_new_state_is_empty(epoch: u64, made: ComposerControlState, known: u64)
    requires
        call_ensures(ComposerControlState::with_user_chronology_epoch, (epoch,), made),
        call_ensures(ComposerControlState::current_user_chronology_epoch, (&made,), known),
    ensures
        known == epoch,
        made.input_epoch == 0,
        made.captures.entries@.len() == 0,
        made.leases.entries@.len() == 0,
        made.kept_leases@.len() == 0,
        made.unknown_acknowledged_leases@.len() == 0,
        made.fences.fences@.len() == 0,
        made.direct_sends.reservations.entries@.len() == 0,
{
}

/// Every change of the chronology is noticed, and nothing but the chronology changes.
pub proof fn a_change_of_the_chronology_is_noticed(
    state: &mut ComposerControlState,
    set: &mut ComposerControlState,
    epoch: u64,
)
    requires
        call_ensures(ComposerControlState::note_user_chronology_change, (state,), ()),
        call_ensures(ComposerControlState::set_user_chronology_epoch, (set, epoch), ()),
    ensures
        final(state).user_chronology_epoch != old(state).user_chronology_epoch,
        old(state).user_chronology_epoch < u64::MAX ==> final(state).user_chronology_epoch == old(state).user_chronology_epoch + 1,
        final(state)@.input_epoch == old(state)@.input_epoch,
        final(state)@.captures == old(state)@.captures,
        final(state)@.leases == old(state)@.leases,
        final(state)@.direct_sends == old(state)@.direct_sends,
        final(set)@.user_chronology_epoch == epoch,
        final(set)@.input_epoch == old(set)@.input_epoch,
        final(set)@.leases == old(set)@.leases,
        final(set)@.captures == old(set)@.captures,
{
}

/// Terminal input is noticed, and nothing else is taken for it; what is captured and leased stays.
pub proof fn terminal_input_is_noticed(state: &mut ComposerControlState, event: TuiEvent)
    requires
        call_ensures(ComposerControlState::note_tui_event, (state, &event), ()),
    ensures
        final(state)@.input_epoch != old(state)@.input_epoch <==> event is Key || event is Paste,
        event is Draw ==> final(state)@ == old(state)@,
        final(state)@.captures == old(state)@.captures,
        final(state)@.leases == old(state)@.leases,
        final(state)@.user_chronology_epoch == old(state)@.user_chronology_epoch,
{
}

/// The newest entries stay where there are too many, as many as there may be and in their order.
pub proof fn the_newest_entries_stay<V>(values: &mut Ledger<V>, limit: usize)
    requires
        call_ensures(evict_oldest::<V>, (values, limit), ()),
    ensures
        old(values).entries@.len() <= limit ==> final(values).entries@ == old(values).entries@,
        old(values).entries@.len() > limit ==> final(values).entries@.len() == limit && final(values).entries@ == old(values).entries@.skip(old(values).entries@.len() - limit),
{
    if old(values).entries@.len() > limit {
        assert(final(values).entries@ =~= old(values).entries@.skip(
            old(values).entries@.len() - limit,
        ));
    }
}

/// The capture under `id` holds the draft as it is: its thread, its text by its digest, its cursor
/// and the input so far.
pub open spec fn is_captured(
    state: ComposerControlState,
    id: Uuid,
    draft: SnapshotView,
    input_epoch: u64,
) -> bool {
    let capture = filed(state.captures.entries@, id);
    &&& holds(state.captures.entries@, id)
    &&& capture.thread_id@ == draft.thread_id
    &&& capture.text_hash == text_digest(draft.text)
    &&& capture.cursor == draft.cursor
    &&& capture.input_epoch == input_epoch
}

proof fn captured_is_found(
    state: ComposerControlState,
    after: ComposerControlState,
    draft: SnapshotView,
    input_epoch: u64,
    id: Uuid,
)
    requires
        state.well_formed(),
        state.capture_step(after, draft, input_epoch, (WireResult::Captured { capture_id: id })),
    ensures
        is_captured(after, id, draft, input_epoch),
        !holds(state.captures.entries@, id),
        after.captures.entries@.len() <= 64,
        state.captures.entries@.len() < 64 ==> after.captures.entries@.drop_last()
            == state.captures.entries@,
        after@.leases == state@.leases,
        after@.direct_sends == state@.direct_sends,
        after@.input_epoch == state@.input_epoch,
{
    let captures = after.captures.entries@;
    let earlier = state.captures.entries@;
    let pushed = earlier.push(captures.last());
    let last = captures.len() - 1;
    assert forall|i: int, j: int| 0 <= i < j < pushed.len() implies (#[trigger] pushed[i]).0 != (
    #[trigger] pushed[j]).0 by {
        assert(earlier[i].0 == pushed[i].0);
        if j < earlier.len() {
            assert(earlier[j].0 == pushed[j].0);
        }
    }
    let skipped = pushed.len() - captures.len();
    assert forall|i: int, j: int| 0 <= i < j < captures.len() implies (#[trigger] captures[i]).0
        != (#[trigger] captures[j]).0 by {
        assert(captures[i] == pushed[i + skipped]);
        assert(captures[j] == pushed[j + skipped]);
    }
    assert(captures[last].0 == id);
    index_is(captures, last);
    if earlier.len() < 64 {
        assert(captures.drop_last() =~= earlier);
    }
}

/// A draft that can be taken is captured as it is, under a new identifier; the captures before stay
/// while there are fewer than 64. Where no draft can be taken, nothing changes.
pub proof fn a_draft_is_captured_as_it_is<T: ComposerControlTarget>(
    state: &mut ComposerControlState,
    target: T,
    overlay: bool,
    result: WireResult,
)
    requires
        old(state).well_formed(),
        call_ensures(ComposerControlState::capture::<T>, (state, &target, overlay), result),
    ensures
        result is Captured <==> !overlay && target.shown_draft() is Some,
        !(result is Captured) ==> result == refused_for(ErrorCode::ComposerUnavailable) && final(state)@ == old(state)@,
        result matches WireResult::Captured { capture_id } ==> {
            &&& is_captured(
                *final(state),
                capture_id,
                target.shown_draft()->0,
                old(state).input_epoch,
            )
            &&& !holds(old(state).captures.entries@, capture_id)
            &&& final(state).captures.entries@.len() <= 64
            &&& old(state).captures.entries@.len() < 64 ==> final(state).captures.entries@.drop_last() == old(state).captures.entries@
            &&& final(state)@.leases == old(state)@.leases
        },
{
    if let WireResult::Captured { capture_id } = result {
        captured_is_found(
            *old(state),
            *final(state),
            target.shown_draft()->0,
            old(state).input_epoch,
            capture_id,
        );
    }
}

/// A send is acquired by what the composer shows: an empty draft is reserved, any other one is
/// captured, each only where the composer allows it, and nothing at all where none is shown.
pub proof fn a_send_is_acquired_by_what_is_shown<T: ComposerControlTarget>(
    state: &mut ComposerControlState,
    target: T,
    overlay: bool,
    result: WireResult,
)
    requires
        old(state).well_formed(),
        call_ensures(ComposerControlState::acquire_send::<T>, (state, &target, overlay), result),
    ensures
        overlay || target.shown_draft() is None ==> result == refused_for(
            ErrorCode::ComposerUnavailable,
        ) && final(state)@ == old(state)@,
        !overlay ==> (target.shown_draft() matches Some(draft) ==> {
            &&& draft.text.len() == 0 && !target.direct_send_open() ==> result == refused_for(
                ErrorCode::SubmissionUnavailable,
            ) && final(state)@ == old(state)@
            &&& draft.text.len() > 0 && !target.plain_draft_send_open() ==> result == refused_for(
                ErrorCode::SubmissionUnavailable,
            ) && final(state)@ == old(state)@
            &&& draft.text.len() > 0 && target.plain_draft_send_open() ==> (result matches
                WireResult::Captured { capture_id } && is_captured(
                *final(state),
                capture_id,
                draft,
                old(state).input_epoch,
            ))
            &&& draft.text.len() == 0 ==> final(state)@.captures == old(state)@.captures && final(state)@.leases == old(state)@.leases
            &&& result is Reserved ==> draft.text.len() == 0 && target.direct_send_open()
        }),
{
    if let WireResult::Captured { capture_id } = result {
        if !overlay && target.shown_draft() is Some && target.shown_draft()->0.text.len() > 0 {
            captured_is_found(
                *old(state),
                *final(state),
                target.shown_draft()->0,
                old(state).input_epoch,
                capture_id,
            );
        }
    }
}

/// What is frozen is what the composer shows and allows at that moment.
pub proof fn a_frozen_composer_is_the_live_one<T: ComposerControlTarget>(
    state: ComposerControlState,
    target: T,
    overlay: bool,
    nonempty_capture_allowed: bool,
    frozen: FrozenComposerAcquisition,
)
    requires
        call_ensures(
            ComposerControlState::freeze_acquisition::<T>,
            (&state, &target, overlay, nonempty_capture_allowed),
            frozen,
        ),
    ensures
        overlay ==> frozen.snapshot is None,
        !overlay ==> snapshot_view(frozen.snapshot) == target.shown_draft(),
        frozen.direct_send_available == target.direct_send_open(),
        frozen.plain_draft_send_available == target.plain_draft_send_open(),
        frozen.input_epoch == state.input_epoch,
        frozen.nonempty_capture_allowed == nonempty_capture_allowed,
{
}

/// While a submission owns the composer only sends are acquired and drafts captured, from the
/// frozen composer; other requests are handed back as they are. A request that waited too long, or
/// that came after terminal input, is refused.
pub proof fn a_busy_composer_serves_acquisitions_only(
    state: &mut ComposerControlState,
    request: ComposerControlRequest,
    frozen: FrozenComposerAcquisition,
    tainted: bool,
    served: Result<WireResult, ComposerControlRequest>,
)
    requires
        old(state).well_formed(),
        call_ensures(
            ComposerControlState::handle_frozen_acquisition_request,
            (state, request, &frozen, tainted),
            served,
        ),
    ensures
        served is Ok <==> request.command is AcquireSend || request.command is Capture,
        served matches Err(back) ==> back == request && final(state)@ == old(state)@,
        served is Ok && request.expired ==> served->Ok_0 == refused_for(ErrorCode::UiTimeout)
            && final(state)@ == old(state)@,
        served is Ok && !request.expired && tainted ==> served->Ok_0 == refused_for(
            ErrorCode::SubmissionUnavailable,
        ) && final(state)@ == old(state)@,
        served is Ok && !request.expired && !tainted && frozen.snapshot is None ==> served->Ok_0
            == refused_for(ErrorCode::ComposerUnavailable) && final(state)@ == old(state)@,
        served is Ok && !request.expired && !tainted ==> (frozen.snapshot matches Some(shown) ==> {
            &&& shown.text@.len() > 0 && !frozen.nonempty_capture_allowed ==> served->Ok_0
                == refused_for(ErrorCode::SubmissionUnavailable) && final(state)@ == old(state)@
            &&& request.command is Capture && (shown.text@.len() == 0
                || frozen.nonempty_capture_allowed) ==> (served->Ok_0 matches
                WireResult::Captured { capture_id } && is_captured(
                *final(state),
                capture_id,
                shown@,
                frozen.input_epoch,
            ))
            &&& request.command is AcquireSend && shown.text@.len() > 0
                && frozen.nonempty_capture_allowed && frozen.plain_draft_send_available ==> (
            served->Ok_0 matches WireResult::Captured { capture_id } && is_captured(
                *final(state),
                capture_id,
                shown@,
                frozen.input_epoch,
            ))
            &&& request.command is AcquireSend && shown.text@.len() == 0
                && !frozen.direct_send_available ==> served->Ok_0 == refused_for(
                ErrorCode::SubmissionUnavailable,
            )
        }),
{
    if let Ok(WireResult::Captured { capture_id }) = served {
        if let Some(shown) = frozen.snapshot {
            if !request.expired && !tainted && (request.command is Capture || shown.text@.len()
                > 0) {
                captured_is_found(
                    *old(state),
                    *final(state),
                    shown@,
                    frozen.input_epoch,
                    capture_id,
                );
            }
        }
    }
}

/// A frozen composer gives what the live one gave: acquired from it, a send comes to the same kind
/// of answer.
pub proof fn a_frozen_acquisition_is_answered_alike<T: ComposerControlTarget>(
    state: &mut ComposerControlState,
    later: &mut ComposerControlState,
    target: T,
    overlay: bool,
    frozen: FrozenComposerAcquisition,
    live: WireResult,
    from_frozen: WireResult,
)
    requires
        old(state).well_formed(),
        old(later).well_formed(),
        call_ensures(
            ComposerControlState::freeze_acquisition::<T>,
            (&*old(state), &target, overlay, true),
            frozen,
        ),
        call_ensures(ComposerControlState::acquire_send::<T>, (state, &target, overlay), live),
        call_ensures(ComposerControlState::acquire_send_frozen, (later, &frozen), from_frozen),
    ensures
        live is Captured <==> from_frozen is Captured,
        live == refused_for(ErrorCode::ComposerUnavailable) <==> from_frozen == refused_for(
            ErrorCode::ComposerUnavailable,
        ),
{
}

/// Text is inserted only under a capture that is held and that is the draft as it is shown now:
/// its thread, text, cursor and input. The capture is then spent, and the new lease is on the text
/// that was inserted, in the thread that is shown.
pub proof fn text_is_inserted_into_the_captured_draft<T: ComposerControlTarget>(
    state: &mut ComposerControlState,
    target: &mut T,
    overlay: bool,
    capture_id: Uuid,
    text: String,
    lease_id: Uuid,
)
    requires
        old(state).well_formed(),
        call_ensures(
            ComposerControlState::insert::<T>,
            (state, target, overlay, capture_id, text),
            (WireResult::Inserted { lease_id }),
        ),
    ensures
        !overlay,
        old(target).shown_draft() is Some,
        is_captured(
            *old(state),
            capture_id,
            old(target).shown_draft()->0,
            old(state).input_epoch,
        ),
        !holds(final(state).captures.entries@, capture_id),
        !old(state).leased(lease_id) || old(state).leases.entries@.len() >= 256,
        final(state).leases.entries@.last().0 == lease_id,
        final(state).leases.entries@.last().1.expected_hash == text_digest(text@),
        final(state).leases.entries@.last().1.thread_id@ == old(target).shown_draft()->0.thread_id,
        final(state).leases.entries@.last().1.state is Draft,
        final(state).leases.entries@.last().1.submit_attempt is None,
        final(target).shown_draft() is Some,
        final(state).leases.entries@.last().1.draft_witness.text_hash == text_digest(
            final(target).shown_draft()->0.text,
        ),
        final(state).leases.entries@.last().1.draft_witness.cursor == final(target).shown_draft()->0.cursor,
        final(state).leases.entries@.last().1.draft_witness.input_epoch == old(state).input_epoch,
        final(state).leases.entries@.len() <= 256,
        final(state)@.direct_sends == old(state)@.direct_sends,
        final(state)@.fences == old(state)@.fences,
{
    let captures = old(state)@.captures;
    without_keeps_others(captures, capture_id);
    let spent = without(captures, capture_id);
    let draft = old(target).shown_draft()->0;
    let now = final(target).shown_draft()->0;
    let moved = crate::commands::moved_captures(
        spent,
        draft,
        Some(now),
        old(state).input_epoch,
    );
    assert(final(state)@.captures == moved);
    assert forall|i: int| 0 <= i < moved.len() implies (#[trigger] moved[i]).0 == spent[i].0 by {}
    if holds(moved, capture_id) {
        let i = index_of(moved, capture_id);
        assert(moved[i].0 == capture_id);
        assert(spent[i].0 == capture_id);
    }
}

/// An insertion that is refused before it is tried leaves the composer and the state as they were:
/// the capture is not held, no draft is shown, the draft is another one, or a message of the thread
/// may be on its way.
pub proof fn a_refused_insertion_touches_nothing<T: ComposerControlTarget>(
    state: &mut ComposerControlState,
    target: &mut T,
    overlay: bool,
    capture_id: Uuid,
    text: String,
    result: WireResult,
)
    requires
        old(state).well_formed(),
        call_ensures(
            ComposerControlState::insert::<T>,
            (state, target, overlay, capture_id, text),
            result,
        ),
    ensures
        !holds(old(state).captures.entries@, capture_id) ==> result == refused_for(
            ErrorCode::CaptureUnavailable,
        ),
        holds(old(state).captures.entries@, capture_id) && (overlay || old(target).shown_draft() is None) ==> result == refused_for(ErrorCode::ComposerUnavailable),
        holds(old(state).captures.entries@, capture_id) && !overlay && (old(target).shown_draft() matches Some(draft) && !is_captured(
            *old(state),
            capture_id,
            draft,
            old(state).input_epoch,
        )) ==> result == refused_for(ErrorCode::CaptureChanged),
        result == WireResult::Unknown || result == refused_for(ErrorCode::CaptureChanged)
            || result == refused_for(ErrorCode::CaptureUnavailable) ==> final(state)@ == old(state)@ && *final(target) == *old(target),
{
}

/// A lease that has been tried answers what its attempt came to, and is not tried again: one that
/// is under way answers that its outcome is unknown.
pub proof fn an_attempted_lease_answers_its_attempt<T: ComposerControlTarget>(
    state: &mut ComposerControlState,
    target: T,
    overlay: bool,
    lease_id: Uuid,
    expected: String,
    execution: CommandExecution,
)
    requires
        old(state).well_formed(),
        !old(state).direct_sends.reserved(lease_id),
        call_ensures(
            ComposerControlState::submit::<T>,
            (state, &target, overlay, lease_id, expected),
            execution,
        ),
    ensures
        !old(state).leased(lease_id) ==> execution == CommandExecution::Complete(
            refused_for(ErrorCode::LeaseUnavailable),
        ) && final(state)@ == old(state)@,
        old(state).leased(lease_id) ==> {
            let lease = old(state).lease(lease_id);
            &&& lease.submit_attempt matches Some(SubmitAttempt::Dispatching { .. }) ==> execution
                == CommandExecution::Complete(WireResult::Unknown)
            &&& lease.submit_attempt matches Some(SubmitAttempt::Resolved { result, .. })
                ==> execution == CommandExecution::Complete(result)
            &&& lease.submit_attempt is Some ==> final(state)@ == old(state)@
            &&& lease.submit_attempt is None && lease.expected_hash != text_digest(expected@)
                ==> execution == CommandExecution::Complete(
                refused_for(ErrorCode::ExpectedMismatch),
            )
            &&& lease.submit_attempt is None && lease.expected_hash == text_digest(expected@) ==> {
                &&& lease.state is SubmittedIntact || lease.state is CorrectionPending ==> execution
                    == CommandExecution::Complete(WireResult::SubmittedIntact) && final(state)@
                    == old(state)@
                &&& lease.state is SubmissionAbandoned ==> execution == CommandExecution::Complete(
                    WireResult::SubmissionAbandoned,
                ) && final(state)@ == old(state)@
                &&& lease.state is SubmissionPending ==> execution == CommandExecution::Complete(
                    WireResult::SendAccepted,
                ) && final(state)@ == old(state)@
            }
        },
{
}

/// The draft is the one that the lease was inserted into: in its thread, with its text and cursor,
/// and no input since.
pub open spec fn draft_is_untouched<T: ComposerControlTarget>(
    state: ComposerControlState,
    target: T,
    overlay: bool,
    lease: ExternalLease,
) -> bool {
    &&& !overlay
    &&& target.shown_draft() matches Some(draft)
    &&& draft.thread_id == lease.thread_id@
    &&& text_digest(draft.text) == lease.draft_witness.text_hash
    &&& draft.cursor == lease.draft_witness.cursor
    &&& state.input_epoch == lease.draft_witness.input_epoch
}

/// A draft that was not tried is dispatched exactly where it is untouched, still owned, and no
/// other message of its thread is under way or in doubt. What is dispatched is the lease's own
/// text, behind a fence that is new and stands.
pub proof fn an_untouched_draft_is_dispatched<T: ComposerControlTarget>(
    state: &mut ComposerControlState,
    target: T,
    overlay: bool,
    lease_id: Uuid,
    native: ComposerLeaseId,
    expected: String,
    execution: CommandExecution,
)
    requires
        old(state).well_formed(),
        !old(state).direct_sends.reserved(lease_id),
        old(state).leased(lease_id),
        old(state).lease(lease_id).state == (ExternalLeaseState::Draft { native }),
        old(state).lease(lease_id).submit_attempt is None,
        old(state).lease(lease_id).expected_hash == text_digest(expected@),
        call_ensures(
            ComposerControlState::submit::<T>,
            (state, &target, overlay, lease_id, expected),
            execution,
        ),
    ensures
        execution is Submit <==> draft_is_untouched(
            *old(state),
            target,
            overlay,
            old(state).lease(lease_id),
        ) && target.owns(native, expected@) is Ok && old(state).thread_fence(
            old(state).lease(lease_id).thread_id@,
        ) is None,
        execution matches CommandExecution::Submit(ready) ==> {
            &&& ready.lease_id == lease_id
            &&& ready.native == native
            &&& ready.expected == expected
            &&& ready.fence.index == old(state).fences.fences@.len()
            &&& final(state).fences.fences@.len() == old(state).fences.fences@.len() + 1
            &&& !final(state).fences.fences@.last().relinquished
            &&& final(state).lease(lease_id).submit_attempt == Some(
                SubmitAttempt::Dispatching { fence: ready.fence },
            )
        },
        execution is Submit || execution is Complete,
        execution matches CommandExecution::Complete(result) ==> {
            &&& final(state).lease(lease_id).submit_attempt matches Some(
                SubmitAttempt::Resolved { result: noted, .. },
            )
            &&& noted == result
            &&& final(state).fences.fences@ == old(state).fences.fences@
        },
        final(state).leased(lease_id),
        final(state).lease(lease_id).state == old(state).lease(lease_id).state,
        forall|other: Uuid| #![trigger final(state).lease(other)]
            other != lease_id && old(state).leased(other) ==> final(state).lease(other) == old(state).lease(other),
        final(state)@.captures == old(state)@.captures,
        final(state)@.direct_sends == old(state)@.direct_sends,
{
    let attempt = match old(state).submit_decision(&target, overlay, lease_id, expected@) {
        crate::settle::SubmitDecision::Resolve(result, guard) => Some(
            SubmitAttempt::Resolved { result, guard },
        ),
        _ => Some(
            SubmitAttempt::Dispatching {
                fence: FenceId { index: old(state)@.fences.len() as usize },
            },
        ),
    };
    refiled_keeps_others(
        old(state)@.leases,
        lease_id,
        old(state).lease(lease_id).attempted(attempt),
    );
}

/// What a lease is verified to be is what it is: submitted, abandoned, pending, in doubt, or a draft
/// that the composer still owns. Nothing is verified under another text.
pub proof fn a_lease_is_verified_as_what_it_is<T: ComposerControlTarget>(
    state: ComposerControlState,
    target: T,
    overlay: bool,
    lease_id: Uuid,
    expected: &str,
    result: WireResult,
)
    requires
        !state.direct_sends.reserved(lease_id),
        call_ensures(
            ComposerControlState::verify::<T>,
            (&state, &target, overlay, lease_id, expected),
            result,
        ),
    ensures
        !state.leased(lease_id) ==> result == refused_for(ErrorCode::LeaseUnavailable),
        state.leased(lease_id) && state.lease(lease_id).expected_hash != text_digest(expected@)
            ==> result == refused_for(ErrorCode::ExpectedMismatch),
        state.leased(lease_id) && state.lease(lease_id).expected_hash == text_digest(expected@)
            ==> {
            let lease = state.lease(lease_id);
            &&& lease.state is SubmittedIntact <==> result == WireResult::SubmittedIntact
            &&& lease.state is SubmissionAbandoned ==> result == WireResult::SubmissionAbandoned
            &&& lease.state is CorrectionPending ==> result == refused_for(
                ErrorCode::LeaseUnavailable,
            )
            &&& lease.state is SubmissionPending ==> result == WireResult::SubmissionPending
                || result == WireResult::Unknown
            &&& result == WireResult::Verified ==> (lease.state matches ExternalLeaseState::Draft {
                native,
            } && target.owns(native, expected@) is Ok && !overlay && (
            target.shown_draft() matches Some(draft) && draft.thread_id == lease.thread_id@))
            &&& lease.submit_attempt is None ==> (lease.state matches ExternalLeaseState::Draft {
                native,
            } ==> (if !overlay && (target.shown_draft() matches Some(draft) && draft.thread_id
                == lease.thread_id@) {
                match target.owns(native, expected@) {
                    Ok(_) => result == WireResult::Verified,
                    Err(error) => result == refused_for(
                        crate::target::lease_error_code(error),
                    ),
                }
            } else {
                result == refused_for(ErrorCode::ComposerUnavailable)
            }))
            &&& lease.state is Draft && (lease.submit_attempt matches Some(
                SubmitAttempt::Resolved { result: WireResult::Unknown, .. },
            )) ==> result == WireResult::Unknown
        },
{
}

/// A lease that is kept is gone and remembered as kept; any other answer leaves every lease as it
/// was. A message that may be on its way is not kept, and one that waits is said to wait.
pub proof fn only_a_settled_lease_is_kept<T: ComposerControlTarget>(
    state: &mut ComposerControlState,
    target: &mut T,
    overlay: bool,
    lease_id: Uuid,
    result: WireResult,
)
    requires
        old(state).well_formed(),
        !old(state).direct_sends.reserved(lease_id),
        !old(state).direct_sends.kept@.contains(lease_id),
        call_ensures(
            ComposerControlState::keep::<T>,
            (state, target, overlay, lease_id),
            result,
        ),
    ensures
        old(state).leased(lease_id) && result == WireResult::Kept ==> {
            &&& !final(state).leased(lease_id)
            &&& final(state).kept_leases@.contains(lease_id)
            &&& old(state).lease(lease_id).state is Draft || old(state).lease(
                lease_id,
            ).state is SubmittedIntact || old(state).lease(lease_id).state is SubmissionAbandoned
            &&& !old(state).lease(lease_id).has_live_fence(old(state).fences.fences@)
        },
        result != WireResult::Kept ==> final(state)@ == old(state)@,
        !old(state).leased(lease_id) ==> {
            &&& result == WireResult::Kept <==> old(state).kept_leases@.contains(lease_id)
            &&& result != WireResult::Kept ==> result == refused_for(ErrorCode::LeaseUnavailable)
            &&& final(state)@ == old(state)@
        },
        old(state).leased(lease_id) && old(state).lease(lease_id).has_live_fence(
            old(state).fences.fences@,
        ) ==> result == WireResult::Unknown && *final(target) == *old(target),
        old(state).leased(lease_id) && !old(state).lease(lease_id).has_live_fence(
            old(state).fences.fences@,
        ) ==> {
            let lease = old(state).lease(lease_id);
            &&& lease.state is SubmissionPending ==> result == WireResult::SubmissionPending
            &&& lease.state is CorrectionPending ==> result == refused_for(
                ErrorCode::LeaseUnavailable,
            )
            &&& lease.state is SubmittedIntact || lease.state is SubmissionAbandoned ==> result
                == WireResult::Kept && *final(target) == *old(target)
        },
        forall|other: Uuid| #![trigger final(state).leased(other)]
            other != lease_id ==> final(state).leased(other) == old(state).leased(other) && (old(state).leased(other) ==> final(state).lease(other) == old(state).lease(other)),
        final(state)@.captures == old(state)@.captures,
        final(state)@.fences == old(state)@.fences,
{
    without_keeps_others(old(state)@.leases, lease_id);
    noted_is_listed(old(state)@.kept_leases, lease_id, 256);
}

/// What is noted is on the log.
pub proof fn noted_is_listed(log: Seq<Uuid>, id: Uuid, limit: int)
    requires
        log.len() <= limit,
        0 < limit,
    ensures
        crate::ledger::noted(log, id, limit).contains(id),
{
    let noted = crate::ledger::noted(log, id, limit);
    if log.contains(id) {
        assert(noted == log);
    } else {
        let longer = log.push(id);
        if longer.len() > limit {
            assert(noted == longer.subrange(longer.len() - limit, longer.len() as int));
            assert(noted[limit - 1] == id);
        } else {
            assert(noted[longer.len() - 1] == id);
        }
    }
}

/// Only an outcome that is unknown can be acknowledged: the lease is then gone, remembered as
/// acknowledged, and guards nothing any more. Every other lease answers what it is, and stays.
pub proof fn only_an_unknown_outcome_is_acknowledged<T: ComposerControlTarget>(
    state: &mut ComposerControlState,
    target: &mut T,
    lease_id: Uuid,
    result: WireResult,
)
    requires
        old(state).well_formed(),
        !old(state).direct_sends.reserved(lease_id),
        !old(state).direct_sends.unknown_acknowledged@.contains(lease_id),
        call_ensures(
            ComposerControlState::acknowledge_unknown::<T>,
            (state, target, lease_id),
            result,
        ),
    ensures
        result != WireResult::UnknownAcknowledged ==> final(state)@ == old(state)@ && *final(target)
            == *old(target),
        old(state).leased(lease_id) ==> {
            let lease = old(state).lease(lease_id);
            &&& lease.state is Draft && (lease.submit_attempt matches Some(
                SubmitAttempt::Resolved { result: WireResult::Unknown, .. },
            )) ==> {
                &&& result == WireResult::UnknownAcknowledged
                &&& !final(state).leased(lease_id)
                &&& final(state).unknown_acknowledged_leases@.contains(lease_id)
            }
            &&& !(lease.state is Draft && (lease.submit_attempt matches Some(
                SubmitAttempt::Resolved { result: WireResult::Unknown, .. },
            ))) ==> final(state)@ == old(state)@ && *final(target) == *old(target)
            &&& lease.state is Draft && (lease.submit_attempt matches Some(
                SubmitAttempt::Dispatching { .. },
            )) ==> result == WireResult::Unknown
            &&& lease.state is Draft && lease.submit_attempt is None ==> result == refused_for(
                ErrorCode::LeaseUnavailable,
            )
            &&& lease.state is SubmissionPending ==> result == WireResult::SubmissionPending
            &&& lease.state is SubmittedIntact || lease.state is CorrectionPending ==> result
                == WireResult::SubmittedIntact
            &&& lease.state is SubmissionAbandoned ==> result == WireResult::SubmissionAbandoned
        },
        !old(state).leased(lease_id) ==> {
            &&& result == WireResult::UnknownAcknowledged <==> old(state).unknown_acknowledged_leases@.contains(lease_id)
            &&& final(state)@ == old(state)@
        },
        forall|other: Uuid| #![trigger final(state).leased(other)]
            other != lease_id ==> final(state).leased(other) == old(state).leased(other) && (old(state).leased(other) ==> final(state).lease(other) == old(state).lease(other)),
{
    without_keeps_others(old(state)@.leases, lease_id);
    noted_is_listed(old(state)@.unknown_acknowledged_leases, lease_id, 256);
}

/// Text that may have been sent is not replaced: a lease that guards its draft, or whose message
/// waits, answers that and stays. A lease that is not held answers so.
pub proof fn text_on_its_way_is_not_replaced<T: ComposerControlTarget>(
    state: &mut ComposerControlState,
    target: &mut T,
    overlay: bool,
    lease_id: Uuid,
    expected: String,
    replacement: String,
    outcome: ReplaceOutcome,
)
    requires
        old(state).well_formed(),
        !old(state).direct_sends.reserved(lease_id),
        call_ensures(
            ComposerControlState::replace::<T>,
            (state, target, overlay, lease_id, expected, replacement),
            outcome,
        ),
    ensures
        !old(state).leased(lease_id) ==> outcome == ReplaceOutcome::Complete(
            refused_for(ErrorCode::LeaseUnavailable),
        ) && final(state)@ == old(state)@ && *final(target) == *old(target),
        old(state).leased(lease_id) && old(state).lease(lease_id).has_live_fence(
            old(state).fences.fences@,
        ) ==> outcome == ReplaceOutcome::Complete(WireResult::Unknown) && final(state)@ == old(state)@ && *final(target) == *old(target),
        old(state).leased(lease_id) && !old(state).lease(lease_id).has_live_fence(
            old(state).fences.fences@,
        ) && old(state).lease(lease_id).state is SubmissionPending ==> outcome
            == ReplaceOutcome::Complete(WireResult::SubmissionPending) && final(state)@ == old(state)@ && *final(target) == *old(target),
        old(state).leased(lease_id) && old(state).lease(lease_id).has_unresolved_provenance()
            ==> outcome == ReplaceOutcome::Complete(WireResult::Unknown) && final(state)@ == old(state)@ && *final(target) == *old(target),
{
}

/// A submitted text is corrected by a proposal that names its lease, its thread and exactly the two
/// texts; nothing changes before it is admitted. Where nothing is to be corrected the lease is kept
/// and gone; where the receipt does not own the expected text, it is refused and gone.
pub proof fn a_submitted_text_is_corrected_by_proposal<T: ComposerControlTarget>(
    state: &mut ComposerControlState,
    target: &mut T,
    overlay: bool,
    lease_id: Uuid,
    expected: String,
    replacement: String,
    outcome: ReplaceOutcome,
)
    requires
        old(state).well_formed(),
        !old(state).direct_sends.reserved(lease_id),
        old(state).leased(lease_id),
        old(state).lease(lease_id).state is SubmittedIntact,
        !old(state).lease(lease_id).has_live_fence(old(state).fences.fences@),
        old(state).lease(lease_id).expected_hash == text_digest(expected@),
        call_ensures(
            ComposerControlState::replace::<T>,
            (state, target, overlay, lease_id, expected, replacement),
            outcome,
        ),
    ensures
        *final(target) == *old(target),
        expected@ == replacement@ ==> outcome == ReplaceOutcome::Complete(WireResult::Kept)
            && !final(state).leased(lease_id),
        expected@ != replacement@ && old(state).lease(
            lease_id,
        ).state->SubmittedIntact_receipt.owned() != Some(expected@) ==> outcome
            == ReplaceOutcome::Complete(refused_for(ErrorCode::ExpectedMismatch)) && !final(state).leased(lease_id),
        expected@ != replacement@ && old(state).lease(
            lease_id,
        ).state->SubmittedIntact_receipt.owned() == Some(expected@) ==> {
            &&& final(state)@ == old(state)@
            &&& outcome is Propose || outcome == ReplaceOutcome::Complete(
                refused_for(ErrorCode::CorrectionUnavailable),
            )
            &&& outcome is Complete ==> cannot_spell(expected@, replacement@)
            &&& outcome matches ReplaceOutcome::Propose(proposal) ==> {
                &&& proposal.lease_id == lease_id
                &&& proposal.thread_id@ == old(state).lease(lease_id).thread_id@
                &&& proposal.expected@ == expected@
                &&& proposal.replacement@ == replacement@
                &&& proposal.receipt == old(state).lease(lease_id).state->SubmittedIntact_receipt
            }
        },
{
    without_keeps_others(old(state)@.leases, lease_id);
}

/// A correction that waits is dispatched again for the same texts, under its own identity and with
/// the text that it was prepared with; for other texts it is refused. Either way nothing changes.
pub proof fn a_waiting_correction_is_dispatched_again<T: ComposerControlTarget>(
    state: &mut ComposerControlState,
    target: &mut T,
    overlay: bool,
    lease_id: Uuid,
    expected: String,
    replacement: String,
    outcome: ReplaceOutcome,
)
    requires
        old(state).well_formed(),
        !old(state).direct_sends.reserved(lease_id),
        old(state).leased(lease_id),
        old(state).lease(lease_id).state is CorrectionPending,
        !old(state).lease(lease_id).has_live_fence(old(state).fences.fences@),
        old(state).lease(lease_id).expected_hash == text_digest(expected@),
        call_ensures(
            ComposerControlState::replace::<T>,
            (state, target, overlay, lease_id, expected, replacement),
            outcome,
        ),
    ensures
        final(state)@ == old(state)@,
        *final(target) == *old(target),
        match old(state).lease(lease_id).state {
            ExternalLeaseState::CorrectionPending {
                receipt,
                correction_id,
                expected: first_expected,
                replacement: first_replacement,
                payload,
            } => if expected@ == first_expected@ && replacement@ == first_replacement@ {
                &&& outcome matches ReplaceOutcome::Correct(correction)
                &&& correction.lease_id == lease_id
                &&& correction.correction_id == correction_id
                &&& correction.payload@ == payload@
                &&& correction.thread_id@ == old(state).lease(lease_id).thread_id@
                &&& correction.expected_client_user_message_id@
                    == crate::submission::client_message_id(receipt.submission_id)
            } else {
                outcome == ReplaceOutcome::Complete(refused_for(ErrorCode::LeaseUnavailable))
            },
            _ => false,
        },
{
}

/// A draft is replaced where its thread is shown, and as the composer answers: the lease is then
/// gone, whether the composer replaced the text or refused to. Elsewhere nothing changes.
pub proof fn a_draft_is_replaced_in_the_shown_thread<T: ComposerControlTarget>(
    state: &mut ComposerControlState,
    target: &mut T,
    overlay: bool,
    lease_id: Uuid,
    native: ComposerLeaseId,
    expected: String,
    replacement: String,
    outcome: ReplaceOutcome,
)
    requires
        old(state).well_formed(),
        !old(state).direct_sends.reserved(lease_id),
        old(state).leased(lease_id),
        old(state).lease(lease_id).state == (ExternalLeaseState::Draft { native }),
        !old(state).mutation_blocked(old(state).lease(lease_id)),
        !old(state).lease(lease_id).has_live_fence(old(state).fences.fences@),
        old(state).lease(lease_id).expected_hash == text_digest(expected@),
        call_ensures(
            ComposerControlState::replace::<T>,
            (state, target, overlay, lease_id, expected, replacement),
            outcome,
        ),
    ensures
        outcome is Complete,
        ({
            let shown = !overlay && (old(target).shown_draft() matches Some(draft)
                && draft.thread_id == old(state).lease(lease_id).thread_id@);
            &&& !shown ==> outcome == ReplaceOutcome::Complete(
                refused_for(ErrorCode::ComposerUnavailable),
            ) && final(state)@ == old(state)@ && *final(target) == *old(target)
            &&& shown ==> !final(state).leased(lease_id) && (exists|
                answer: Result<(), ComposerLeaseError>,
            |
                {
                    &&& #[trigger] old(target).may_replace(
                        native,
                        expected@,
                        replacement@,
                        *final(target),
                        answer,
                    )
                    &&& answer is Ok <==> outcome == ReplaceOutcome::Complete(WireResult::Replaced)
                    &&& answer matches Err(error) ==> outcome == ReplaceOutcome::Complete(
                        refused_for(crate::target::lease_error_code(error)),
                    )
                })
        }),
{
    without_keeps_others(old(state)@.leases, lease_id);
}

/// A request that waited too long is refused and has no effect, whatever it asks for.
pub proof fn a_late_request_has_no_effect<T: ComposerControlTarget>(
    state: &mut ComposerControlState,
    request: ComposerControlRequest,
    target: &mut T,
    overlay: bool,
    outcome: RequestOutcome,
)
    requires
        old(state).well_formed(),
        request.expired,
        call_ensures(
            ComposerControlState::handle_ui_request::<T>,
            (state, request, target, overlay),
            outcome,
        ),
    ensures
        outcome == RequestOutcome::Reply(refused_for(ErrorCode::UiTimeout)),
        *final(state) == *old(state),
        *final(target) == *old(target),
{
}

/// A request comes to what its command comes to: an answer, a measurement, or a dispatch of the
/// very thing that was prepared.
pub proof fn a_request_comes_to_its_command<T: ComposerControlTarget>(
    state: &mut ComposerControlState,
    request: ComposerControlRequest,
    target: &mut T,
    overlay: bool,
    outcome: RequestOutcome,
)
    requires
        old(state).well_formed(),
        !request.expired,
        call_ensures(
            ComposerControlState::handle_ui_request::<T>,
            (state, request, target, overlay),
            outcome,
        ),
    ensures
        exists|execution: CommandExecution|
            {
                &&& #[trigger] old(state).command_step(
                    *final(state),
                    *old(target),
                    *final(target),
                    overlay,
                    request.command,
                    execution,
                )
                &&& match execution {
                    CommandExecution::Complete(result) => outcome == RequestOutcome::Reply(result),
                    CommandExecution::Propose(proposal) => outcome == RequestOutcome::Measure(
                        proposal,
                    ),
                    CommandExecution::Correct(correction) => outcome == RequestOutcome::Pending(
                        PendingComposerControlAction::Correction(correction),
                    ),
                    CommandExecution::Submit(ready) => outcome == RequestOutcome::Pending(
                        PendingComposerControlAction::Submission(ready),
                    ),
                    CommandExecution::SubmitDirect(ready) => outcome == RequestOutcome::Pending(
                        PendingComposerControlAction::DirectSubmission(ready),
                    ),
                }
            },
        request.command is Verify ==> *final(state) == *old(state) && *final(target) == *old(target) && outcome is Reply,
        outcome is Pending ==> request.command is Submit || request.command is Replace,
        outcome is Measure ==> request.command is Replace,
{
}

/// A thread is fenced exactly where one of its leases was dispatched, or may have been; another
/// thread's leases do not matter.
pub proof fn a_thread_is_fenced_by_its_own_leases(state: ComposerControlState, thread_id: Seq<char>)
    ensures
        state.thread_fence(thread_id) is None <==> forall|i: int|
            0 <= i < state@.leases.len() && (#[trigger] state@.leases[i]).1.thread_id@ == thread_id
                ==> match state@.leases[i].1.submit_attempt {
                None => true,
                Some(SubmitAttempt::Dispatching { .. }) => false,
                Some(SubmitAttempt::Resolved { result, guard }) => result != WireResult::Unknown
                    || guard is None,
            },
        state.thread_fence(thread_id) matches Some(fence) ==> exists|i: int|
            0 <= i < state@.leases.len() && (#[trigger] state@.leases[i]).1.thread_id@ == thread_id
                && (match state@.leases[i].1.submit_attempt {
                None => false,
                Some(SubmitAttempt::Dispatching { fence: raised }) => raised == fence,
                Some(SubmitAttempt::Resolved { result, guard }) => result == WireResult::Unknown
                    && guard == Some(fence),
            }),
{
    let wanted = crate::settle::fenced_in_thread(thread_id);
    let at = crate::ledger::first_where(state@.leases, wanted, 0);
    first_of(state@.leases, wanted, 0);
    if at < state@.leases.len() {
        assert(wanted(state@.leases[at as int].1));
    } else {
        assert forall|i: int|
            0 <= i < state@.leases.len() && (#[trigger] state@.leases[i]).1.thread_id@
                == thread_id implies match state@.leases[i].1.submit_attempt {
            None => true,
            Some(SubmitAttempt::Dispatching { .. }) => false,
            Some(SubmitAttempt::Resolved { result, guard }) => result != WireResult::Unknown
                || guard is None,
        } by {
            assert(!wanted(state@.leases[i].1));
        }
    }
}

/// The first that is wanted is wanted, and none before it is.
pub proof fn first_of<V>(entries: Seq<(Uuid, V)>, wanted: spec_fn(V) -> bool, from: nat)
    requires
        from <= entries.len(),
    ensures
        ({
            let at = crate::ledger::first_where(entries, wanted, from);
            &&& from <= at <= entries.len()
            &&& at < entries.len() ==> wanted(entries[at as int].1)
            &&& forall|i: int| from <= i < at ==> !wanted((#[trigger] entries[i]).1)
        }),
    decreases entries.len() - from,
{
    if from < entries.len() && !wanted(entries[from as int].1) {
        first_of(entries, wanted, from + 1);
    }
}

/// A thread is guarded exactly where one of its leases guards the draft.
pub proof fn a_thread_is_guarded_by_its_own_leases(
    state: ComposerControlState,
    thread_id: Seq<char>,
)
    ensures
        state.thread_guarded(thread_id) <==> exists|i: int|
            0 <= i < state@.leases.len() && (#[trigger] state@.leases[i]).1.thread_id@ == thread_id
                && state@.leases[i].1.has_live_fence(state@.fences),
{
    let wanted = crate::commands::guards_thread(thread_id, state@.fences);
    let at = crate::ledger::first_where(state@.leases, wanted, 0);
    first_of(state@.leases, wanted, 0);
    if at < state@.leases.len() {
        assert(wanted(state@.leases[at as int].1));
    } else {
        assert forall|i: int|
            0 <= i < state@.leases.len() && (#[trigger] state@.leases[i]).1.thread_id@
                == thread_id implies !state@.leases[i].1.has_live_fence(state@.fences) by {
            assert(!wanted(state@.leases[i].1));
        }
    }
}

/// A full table makes room only by a lease that cannot be on its way: one whose message has settled,
/// or a draft of the same thread that was never sent; and none that guards a draft.
pub proof fn room_is_made_by_settled_leases(state: ComposerControlState, thread_id: Seq<char>)
    ensures
        ({
            let at = state.retiring(thread_id);
            at < state@.leases.len() ==> {
                let lease = state@.leases[at as int].1;
                &&& !lease.has_live_fence(state@.fences)
                &&& lease.state is SubmittedIntact || lease.state is SubmissionAbandoned || (
                lease.state is Draft && lease.thread_id@ == thread_id && (lease.submit_attempt matches
                    Some(SubmitAttempt::Resolved { result, .. }) ==> result != WireResult::Unknown)
                    && !(lease.submit_attempt matches Some(SubmitAttempt::Dispatching { .. })))
            }
        }),
        state.retiring(thread_id) >= state@.leases.len() ==> forall|i: int|
            0 <= i < state@.leases.len() && !(#[trigger] state@.leases[i]).1.has_live_fence(
                state@.fences,
            ) ==> !(state@.leases[i].1.state is SubmittedIntact)
                && !(state@.leases[i].1.state is SubmissionAbandoned),
{
    let wanted = crate::commands::can_retire(thread_id, state@.fences);
    first_of(state@.leases, wanted, 0);
    let at = state.retiring(thread_id);
    if at < state@.leases.len() {
        assert(wanted(state@.leases[at as int].1));
    } else {
        assert forall|i: int|
            0 <= i < state@.leases.len() && !(#[trigger] state@.leases[i]).1.has_live_fence(
                state@.fences,
            ) implies !(state@.leases[i].1.state is SubmittedIntact)
            && !(state@.leases[i].1.state is SubmissionAbandoned) by {
            assert(!wanted(state@.leases[i].1));
        }
    }
}

/// A request is served on what it names: the lease, the capture and the texts of its own command.
pub proof fn a_request_is_served_on_what_it_names<T: ComposerControlTarget>(
    state: &mut ComposerControlState,
    request: ComposerControlRequest,
    target: &mut T,
    overlay: bool,
    outcome: RequestOutcome,
)
    requires
        old(state).well_formed(),
        !request.expired,
        call_ensures(
            ComposerControlState::handle_ui_request::<T>,
            (state, request, target, overlay),
            outcome,
        ),
    ensures
        outcome matches RequestOutcome::Pending(PendingComposerControlAction::Submission(ready))
            ==> (request.command matches ComposerCommand::Submit { lease_id, expected }
            && ready.lease_id == lease_id && ready.expected == expected),
        outcome matches RequestOutcome::Pending(
            PendingComposerControlAction::DirectSubmission(ready),
        ) ==> (request.command matches ComposerCommand::Submit { lease_id, expected }
            && ready.reservation_id == lease_id && ready.expected == expected),
        outcome matches RequestOutcome::Pending(
            PendingComposerControlAction::Correction(correction),
        ) ==> (request.command matches ComposerCommand::Replace { lease_id, .. }
            && correction.lease_id == lease_id),
        outcome matches RequestOutcome::Measure(proposal) ==> (request.command matches
            ComposerCommand::Replace { lease_id, expected, replacement } && proposal.lease_id
            == lease_id && proposal.expected == expected && proposal.replacement == replacement),
        request.command matches ComposerCommand::Insert { capture_id, .. } ==> (!holds(
            old(state).captures.entries@,
            capture_id,
        ) ==> outcome == RequestOutcome::Reply(refused_for(ErrorCode::CaptureUnavailable))),
        request.command matches ComposerCommand::Keep { lease_id } ==> (outcome
            == RequestOutcome::Reply(WireResult::Kept) && old(state).leased(lease_id) && !old(state).direct_sends.reserved(lease_id) && !old(state).direct_sends.kept@.contains(lease_id)
            ==> !final(state).leased(lease_id)),
        request.command is Capture ==> (outcome matches RequestOutcome::Reply(result)
            && (result is Captured || result == refused_for(ErrorCode::ComposerUnavailable))),
        request.command is AcquireSend ==> outcome is Reply,
{
    if let ComposerCommand::Keep { lease_id } = request.command {
        without_keeps_others(old(state)@.leases, lease_id);
    }
}

/// A submission that is ready says what it was made with.
pub proof fn a_ready_submission_says_what_it_is(
    ready: PreparedSubmission,
    native: ComposerLeaseId,
    expected: &str,
    fence: FenceId,
)
    requires
        call_ensures(PreparedSubmission::native, (&ready,), native),
        call_ensures(PreparedSubmission::expected, (&ready,), expected),
        call_ensures(PreparedSubmission::fence, (&ready,), fence),
    ensures
        native == ready.native,
        expected@ == ready.expected@,
        fence == ready.fence,
{
}

/// A draft can be taken where the composer shows one and no overlay covers it.
pub proof fn an_overlay_hides_the_draft<T: ComposerControlTarget>(
    target: T,
    covered: Option<crate::target::ComposerSnapshot>,
    open: Option<crate::target::ComposerSnapshot>,
)
    requires
        call_ensures(crate::target::available_snapshot::<T>, (&target, true), covered),
        call_ensures(crate::target::available_snapshot::<T>, (&target, false), open),
    ensures
        covered is None,
        snapshot_view(open) == target.shown_draft(),
{
}

/// An insertion that is tried is answered as the composer answered: a refusal of it is reported as
/// what it is and makes no lease, and text that went into a thread which is not shown any more is
/// let go at once. Either way the capture is spent.
pub proof fn an_insertion_is_answered_as_the_composer_did<T: ComposerControlTarget>(
    state: &mut ComposerControlState,
    target: &mut T,
    overlay: bool,
    capture_id: Uuid,
    text: String,
    result: WireResult,
)
    requires
        old(state).well_formed(),
        old(state).insert_refusal(old(target), overlay, capture_id) is None,
        old(state).leases.entries@.len() < 256,
        call_ensures(
            ComposerControlState::insert::<T>,
            (state, target, overlay, capture_id, text),
            result,
        ),
    ensures
        exists|filled: T, answer: Result<ComposerLeaseId, ComposerLeaseError>|
            {
                &&& #[trigger] old(target).may_insert(text@, filled, answer)
                &&& answer matches Err(error) ==> {
                    &&& result == refused_for(crate::target::lease_error_code(error))
                    &&& *final(target) == filled
                    &&& final(state)@.leases == old(state)@.leases
                    &&& final(state)@.captures == without(old(state)@.captures, capture_id)
                }
                &&& answer matches Ok(native) ==> {
                    let stays = filled.shown_draft() matches Some(now) && now.thread_id == old(target).shown_draft()->0.thread_id;
                    &&& stays ==> result is Inserted && *final(target) == filled && final(state)@.leases.last().1.state == (ExternalLeaseState::Draft { native }) && final(state)@.leases.drop_last() == old(state)@.leases
                    &&& !stays ==> result == refused_for(ErrorCode::ComposerUnavailable) && final(state)@.leases == old(state)@.leases && final(state)@.captures == without(
                        old(state)@.captures,
                        capture_id,
                    ) && exists|kept: Result<(), ComposerLeaseError>| #[trigger]
                        filled.may_keep(native, *final(target), kept)
                }
            },
{
    let draft = old(target).shown_draft()->0;
    let (ready, filled, inserted) = choose|
        ready: T,
        filled: T,
        inserted: Result<ComposerLeaseId, ComposerLeaseError>,
    |
        {
            &&& #[trigger] ready.may_insert(text@, filled, inserted)
            &&& ready == *old(target)
            &&& old(state).inserted_step(
                *final(state),
                *final(target),
                draft,
                without(old(state)@.captures, capture_id),
                old(state)@.leases,
                text@,
                filled,
                inserted,
                result,
            )
        };
    if let WireResult::Inserted { lease_id } = result {
        if inserted is Ok {
            let pushed = old(state)@.leases.push((lease_id, final(state).lease(lease_id)));
            assert(pushed.drop_last() =~= old(state)@.leases);
        }
    }
}

/// What is asked of a reservation is answered from it, and touches neither the composer nor its
/// leases, captures and fences.
pub proof fn a_reservation_is_served_without_the_composer<T: ComposerControlTarget>(
    submitted: &mut ComposerControlState,
    kept: &mut ComposerControlState,
    acknowledged: &mut ComposerControlState,
    replaced: &mut ComposerControlState,
    target: T,
    keep_target: &mut T,
    acknowledge_target: &mut T,
    replace_target: &mut T,
    overlay: bool,
    lease_id: Uuid,
    expected: String,
    replacement: String,
    execution: CommandExecution,
    keep_result: WireResult,
    acknowledge_result: WireResult,
    outcome: ReplaceOutcome,
)
    requires
        old(submitted).well_formed(),
        old(submitted).direct_sends.reserved(lease_id),
        *old(kept) == *old(submitted),
        *old(acknowledged) == *old(submitted),
        *old(replaced) == *old(submitted),
        call_ensures(
            ComposerControlState::submit::<T>,
            (submitted, &target, overlay, lease_id, expected),
            execution,
        ),
        call_ensures(
            ComposerControlState::keep::<T>,
            (kept, keep_target, overlay, lease_id),
            keep_result,
        ),
        call_ensures(
            ComposerControlState::acknowledge_unknown::<T>,
            (acknowledged, acknowledge_target, lease_id),
            acknowledge_result,
        ),
        call_ensures(
            ComposerControlState::replace::<T>,
            (replaced, replace_target, overlay, lease_id, expected, replacement),
            outcome,
        ),
    ensures
        *final(keep_target) == *old(keep_target),
        *final(acknowledge_target) == *old(acknowledge_target),
        *final(replace_target) == *old(replace_target),
        only_sends_change(*old(submitted), *final(submitted)),
        only_sends_change(*old(kept), *final(kept)),
        only_sends_change(*old(acknowledged), *final(acknowledged)),
        only_sends_change(*old(replaced), *final(replaced)),
        old(submitted).direct_sends.submit_step(
            final(submitted).direct_sends,
            lease_id,
            expected,
            target.shown_thread(),
            old(submitted).user_chronology_epoch,
            match execution {
                CommandExecution::SubmitDirect(ready) => Ok(ready),
                CommandExecution::Complete(result) => Err(result),
                _ => Err(WireResult::Unknown),
            },
        ),
        execution is SubmitDirect || execution is Complete,
        old(kept).direct_sends.keep_step(final(kept).direct_sends, lease_id, keep_result),
        old(acknowledged).direct_sends.acknowledge_step(
            final(acknowledged).direct_sends,
            lease_id,
            acknowledge_result,
        ),
        old(replaced).direct_sends.replace_step(
            final(replaced).direct_sends,
            lease_id,
            expected,
            replacement,
            outcome,
        ),
        old(submitted).direct_sends.reservation(lease_id).state is SubmittedIntact ==> {
            &&& keep_result == WireResult::Kept
            &&& !final(kept).direct_sends.reserved(lease_id)
            &&& acknowledge_result == WireResult::SubmittedIntact
        },
{
    without_keeps_others(old(kept).direct_sends.reservations.entries@, lease_id);
}

/// Everything but the composer-free sends is as it was.
pub open spec fn only_sends_change(
    before: ComposerControlState,
    after: ComposerControlState,
) -> bool {
    &&& after@.leases == before@.leases
    &&& after@.captures == before@.captures
    &&& after@.fences == before@.fences
    &&& after@.kept_leases == before@.kept_leases
    &&& after@.unknown_acknowledged_leases == before@.unknown_acknowledged_leases
    &&& after@.input_epoch == before@.input_epoch
    &&& after@.user_chronology_epoch == before@.user_chronology_epoch
}

/// An outcome that is acknowledged as unknown ends the ownership of its text in the composer too,
/// and lets go of its fence.
pub proof fn an_acknowledged_draft_is_let_go<T: ComposerControlTarget>(
    state: &mut ComposerControlState,
    target: &mut T,
    lease_id: Uuid,
    native: ComposerLeaseId,
    guard: Option<FenceId>,
    result: WireResult,
)
    requires
        old(state).well_formed(),
        !old(state).direct_sends.reserved(lease_id),
        !old(state).direct_sends.unknown_acknowledged@.contains(lease_id),
        old(state).leased(lease_id),
        old(state).lease(lease_id).state == (ExternalLeaseState::Draft { native }),
        old(state).lease(lease_id).submit_attempt == Some(
            SubmitAttempt::Resolved { result: WireResult::Unknown, guard },
        ),
        call_ensures(
            ComposerControlState::acknowledge_unknown::<T>,
            (state, target, lease_id),
            result,
        ),
    ensures
        exists|kept: Result<(), ComposerLeaseError>| #[trigger]
            old(target).may_keep(native, *final(target), kept),
        guard matches Some(fence) ==> (fence.index < old(state).fences.fences@.len() ==> final(state).fences.fences@[fence.index as int].relinquished),
        final(state)@.captures == old(state)@.captures,
        final(state)@.kept_leases == old(state)@.kept_leases,
        final(state)@.direct_sends == old(state)@.direct_sends,
{
}

/// A draft that was frozen is captured as it was then, with the input that had come in by then; a
/// draft with text in it only where that was allowed. Otherwise nothing changes.
pub proof fn a_frozen_draft_is_captured_as_it_was(
    state: &mut ComposerControlState,
    frozen: FrozenComposerAcquisition,
    result: WireResult,
)
    requires
        old(state).well_formed(),
        call_ensures(ComposerControlState::capture_frozen, (state, &frozen), result),
    ensures
        frozen.snapshot is None ==> result == refused_for(ErrorCode::ComposerUnavailable),
        frozen.snapshot matches Some(snapshot) ==> {
            let allowed = snapshot.text@.len() == 0 || frozen.nonempty_capture_allowed;
            &&& result is Captured <==> allowed
            &&& !allowed ==> result == refused_for(ErrorCode::SubmissionUnavailable)
            &&& result matches WireResult::Captured { capture_id } ==> {
                &&& is_captured(
                    *final(state),
                    capture_id,
                    snapshot_view(frozen.snapshot)->0,
                    frozen.input_epoch,
                )
                &&& filed(final(state).captures.entries@, capture_id).thread_id@
                    == snapshot.thread_id@
                &&& !holds(old(state).captures.entries@, capture_id)
                &&& final(state)@.leases == old(state)@.leases
                &&& final(state)@.direct_sends == old(state)@.direct_sends
            }
        },
        !(result is Captured) ==> final(state)@ == old(state)@,
{
    if let WireResult::Captured { capture_id } = result {
        captured_is_found(
            *old(state),
            *final(state),
            snapshot_view(frozen.snapshot)->0,
            frozen.input_epoch,
            capture_id,
        );
    }
}

/// A command does what the operation that it names does, with what the command holds. Only an
/// insertion, a replacement and what ends an ownership reach the composer.
pub proof fn a_command_is_its_operation<T: ComposerControlTarget>(
    state: &mut ComposerControlState,
    target: &mut T,
    command: ComposerCommand,
    overlay: bool,
    execution: CommandExecution,
    stated: &str,
    verified: WireResult,
)
    requires
        old(state).well_formed(),
        call_ensures(
            ComposerControlState::prepare_command::<T>,
            (state, command, target, overlay),
            execution,
        ),
        command matches ComposerCommand::Verify { lease_id, expected } ==> stated@ == expected@
            && call_ensures(
            ComposerControlState::verify::<T>,
            (old(state), old(target), overlay, lease_id, stated),
            verified,
        ),
    ensures
        command is AcquireSend || command is Capture || command is Verify || command is Submit
            ==> *final(target) == *old(target),
        !(command is Submit) && !(command is Replace) ==> execution is Complete,
        command is Submit ==> execution is Complete || execution is Submit
            || execution is SubmitDirect,
        command is Replace ==> execution is Complete || execution is Propose
            || execution is Correct,
        command is Verify ==> execution == CommandExecution::Complete(verified) && *final(state)
            == *old(state),
        command is Capture ==> (execution->Complete_0 is Captured <==> !overlay && old(target).shown_draft() is Some),
        command matches ComposerCommand::Insert { capture_id, text } ==> old(state).insert_step(
            *final(state),
            *old(target),
            *final(target),
            overlay,
            capture_id,
            text@,
            execution->Complete_0,
        ),
        command matches ComposerCommand::Submit { lease_id, expected } ==> old(state).submit_step(
            *final(state),
            old(target),
            overlay,
            lease_id,
            expected,
            execution,
        ),
        command matches ComposerCommand::Keep { lease_id } ==> old(state).keep_step(
            *final(state),
            *old(target),
            *final(target),
            overlay,
            lease_id,
            execution->Complete_0,
        ),
        command matches ComposerCommand::AcknowledgeUnknown { lease_id } ==> old(state).acknowledge_step(
            *final(state),
            *old(target),
            *final(target),
            lease_id,
            execution->Complete_0,
        ),
        command matches ComposerCommand::Replace { lease_id, expected, replacement } ==> exists|
            outcome: ReplaceOutcome,
        |
            #[trigger] old(state).replace_step(
                *final(state),
                *old(target),
                *final(target),
                overlay,
                lease_id,
                expected,
                replacement,
                outcome,
            ) && match outcome {
                ReplaceOutcome::Complete(result) => execution == CommandExecution::Complete(result),
                ReplaceOutcome::Propose(proposal) => execution == CommandExecution::Propose(
                    proposal,
                ),
                ReplaceOutcome::Correct(correction) => execution == CommandExecution::Correct(
                    correction,
                ),
            },
{
}

} // verus!
