//! How leases follow the message that they were sent with.
use crate::commands::PreparedSubmission;
use crate::control::ComposerControlState;
use crate::control_laws::refused_for;
use crate::digest::text_digest;
use crate::direct_send::{DirectSendReservations, DirectSendState};
use crate::events::TuiEventDisposition;
use crate::fence::FenceId;
use crate::ids::Uuid;
use crate::lease::{ExternalLease, ExternalLeaseState, SubmitAttempt};
use crate::ledger::{refiled_keeps_others, retained_are, without_keeps_others};
use crate::lifecycle::{
    captured_in, lost_by_rollback, rolled_leases, submitted_range,
};
use crate::receipt::{
    CorrectionDispatchOutcome, CorrectionOrigin, CorrectionProposal, PreparedCorrection,
    ReplaceOutcome, SubmissionDispatchOutcome,
};
use crate::submission::{NativeComposerSubmission, NativeSubmittedLease};
use crate::target::{ComposerControlTarget, TuiEvent};
use crate::text::text_at;
use crate::wire::{ErrorCode, WireResult};
use vstd::prelude::*;
use vstd::string::*;

verus! {

/// Every other lease is as it was.
pub open spec fn other_leases_kept(
    before: ComposerControlState,
    after: ComposerControlState,
    id: Uuid,
) -> bool {
    forall|other: Uuid| #![trigger after.leased(other)]
        other != id ==> after.leased(other) == before.leased(other) && (before.leased(other)
            ==> after.lease(other) == before.lease(other))
}

/// A correction of a submitted text is admitted where the text is still the submitted one and
/// nothing of the correction had to be cut: it then waits under its identity, and is dispatched
/// with the last draft as its text.
pub proof fn a_whole_correction_of_a_lease_is_admitted(
    state: &mut ComposerControlState,
    proposal: CorrectionProposal,
    truncated: bool,
    outcome: ReplaceOutcome,
)
    requires
        old(state).well_formed(),
        proposal.drafts@.len() > 0,
        proposal.origin == CorrectionOrigin::Composer,
        call_ensures(ComposerControlState::admit_correction, (state, proposal, truncated), outcome),
    ensures
        outcome is Correct <==> !truncated && old(state).leased(proposal.lease_id) && (old(state).lease(proposal.lease_id).state matches ExternalLeaseState::SubmittedIntact { receipt }
            && receipt.submission_id == proposal.receipt.submission_id),
        outcome matches ReplaceOutcome::Correct(correction) ==> {
            &&& correction.payload@ == proposal.drafts@.last()@
            &&& correction.correction_id == proposal.correction_id
            &&& correction.lease_id == proposal.lease_id
            &&& correction.origin == CorrectionOrigin::Composer
            &&& correction.thread_id@ == old(state).lease(proposal.lease_id).thread_id@
            &&& final(state).lease(proposal.lease_id).state matches
                ExternalLeaseState::CorrectionPending {
                receipt,
                correction_id,
                expected,
                replacement,
                payload,
            }
            &&& receipt == proposal.receipt
            &&& correction_id == proposal.correction_id
            &&& expected == proposal.expected
            &&& replacement == proposal.replacement
            &&& payload@ == proposal.drafts@.last()@
            &&& final(state).lease(proposal.lease_id).submit_attempt == old(state).lease(
                proposal.lease_id,
            ).submit_attempt
        },
        !(outcome is Correct) ==> final(state)@ == old(state)@,
        outcome matches ReplaceOutcome::Complete(result) ==> result == refused_for(
            ErrorCode::LeaseUnavailable,
        ) || (truncated && result == refused_for(ErrorCode::CorrectionUnavailable)),
        other_leases_kept(*old(state), *final(state), proposal.lease_id),
        final(state)@.captures == old(state)@.captures,
        final(state)@.fences == old(state)@.fences,
{
    if old(state).leased(proposal.lease_id) {
        refiled_keeps_others(
            old(state)@.leases,
            proposal.lease_id,
            old(state).lease(proposal.lease_id).in_state(
                ExternalLeaseState::CorrectionPending {
                    receipt: proposal.receipt,
                    correction_id: proposal.correction_id,
                    expected: proposal.expected,
                    replacement: proposal.replacement,
                    payload: proposal.drafts@.last(),
                },
            ),
        );
    }
}

/// How a dispatch ended is the answer of its attempt from then on. An outcome that is unknown keeps
/// its fence up, and any other one ends the guard.
pub proof fn an_attempt_ends_by_its_outcome(
    state: &mut ComposerControlState,
    pending: PreparedSubmission,
    outcome: SubmissionDispatchOutcome,
    result: WireResult,
)
    requires
        old(state).well_formed(),
        call_ensures(ComposerControlState::finish_submission, (state, pending, outcome), result),
    ensures
        outcome is Accepted <==> result == WireResult::SendAccepted,
        outcome is Unknown || outcome is AcceptedButUncommitted <==> result == WireResult::Unknown,
        outcome matches SubmissionDispatchOutcome::NotApplied(code) ==> result == refused_for(code),
        !old(state).leased(pending.lease_id) ==> final(state)@ == old(state)@,
        old(state).leased(pending.lease_id) ==> {
            &&& final(state).leased(pending.lease_id)
            &&& final(state).lease(pending.lease_id) == (ExternalLease {
                submit_attempt: final(state).lease(pending.lease_id).submit_attempt,
                ..old(state).lease(pending.lease_id)
            })
            &&& final(state).lease(pending.lease_id).submit_attempt matches Some(
                SubmitAttempt::Resolved { result: noted, guard },
            )
            &&& noted == result
            &&& result == WireResult::Unknown ==> guard == Some(pending.fence)
            &&& result != WireResult::Unknown ==> guard is None
        },
        other_leases_kept(*old(state), *final(state), pending.lease_id),
        final(state)@.fences == old(state)@.fences,
        final(state)@.captures == old(state)@.captures,
{
    if old(state).leased(pending.lease_id) {
        refiled_keeps_others(
            old(state)@.leases,
            pending.lease_id,
            old(state).lease(pending.lease_id).attempted(
                Some(
                    SubmitAttempt::Resolved {
                        result,
                        guard: if result == WireResult::Unknown {
                            Some(pending.fence)
                        } else {
                            None
                        },
                    },
                ),
            ),
        );
    }
}

/// An accepted correction ends its lease, a refused one puts it back to the submitted text, and one
/// whose outcome is unknown leaves it waiting. A correction that was superseded changes nothing.
pub proof fn a_lease_follows_its_correction(
    state: &mut ComposerControlState,
    pending: PreparedCorrection,
    outcome: CorrectionDispatchOutcome,
    result: WireResult,
)
    requires
        old(state).well_formed(),
        pending.origin == CorrectionOrigin::Composer,
        call_ensures(ComposerControlState::finish_correction, (state, pending, outcome), result),
    ensures
        outcome is Accepted <==> result == WireResult::CorrectionQueued,
        outcome is Unknown <==> result == WireResult::CorrectionPending,
        outcome is NotApplied <==> result == refused_for(ErrorCode::CorrectionUnavailable),
        outcome is Unknown ==> final(state)@ == old(state)@,
        old(state).leased(pending.lease_id) ==> (old(state).lease(pending.lease_id).state matches
            ExternalLeaseState::CorrectionPending { correction_id: current, receipt, .. } ==> {
            &&& current != pending.correction_id ==> final(state)@ == old(state)@
            &&& current == pending.correction_id && outcome is Accepted ==> !final(state).leased(
                pending.lease_id,
            )
            &&& current == pending.correction_id && outcome is NotApplied ==> final(state).lease(
                pending.lease_id,
            ).state == (ExternalLeaseState::SubmittedIntact { receipt })
        }),
        other_leases_kept(*old(state), *final(state), pending.lease_id),
        final(state)@.captures == old(state)@.captures,
        final(state)@.direct_sends == old(state)@.direct_sends,
{
    without_keeps_others(old(state)@.leases, pending.lease_id);
    if old(state).leased(pending.lease_id) {
        let lease = old(state).lease(pending.lease_id);
        refiled_keeps_others(
            old(state)@.leases,
            pending.lease_id,
            lease.in_state(
                ExternalLeaseState::SubmittedIntact {
                    receipt: lease.state->CorrectionPending_receipt,
                },
            ),
        );
    }
}

proof fn range_of_native(leases: Seq<NativeSubmittedLease>, native: u64, at: int, from: nat)
    requires
        from <= at < leases.len(),
        leases[at].native == native,
        forall|k: int| from <= k < at ==> (#[trigger] leases[k]).native != native,
    ensures
        submitted_range(leases, native, from) == Some(leases[at].range),
    decreases at - from,
{
    if from < at {
        range_of_native(leases, native, at, from + 1);
    }
}

proof fn no_range_of_native(leases: Seq<NativeSubmittedLease>, native: u64, from: nat)
    requires
        from <= leases.len(),
        forall|k: int| from <= k < leases.len() ==> (#[trigger] leases[k]).native != native,
    ensures
        submitted_range(leases, native, from) is None,
    decreases leases.len() - from,
{
    if from < leases.len() {
        no_range_of_native(leases, native, from + 1);
    }
}

/// A draft whose text was sent with a message waits for that message from then on: its receipt
/// names the message and the range that the composer handed over for it. That takes a draft of the
/// message's thread, and the very text that the lease is on.
pub proof fn a_sent_draft_waits_for_its_message(
    state: &mut ComposerControlState,
    thread_id: &str,
    submission_id: Uuid,
    text: String,
    sent: Vec<NativeSubmittedLease>,
    i: int,
    at: int,
)
    requires
        old(state).well_formed(),
        call_ensures(
            ComposerControlState::note_submission_pending_by_native,
            (state, thread_id, submission_id, &text, &sent),
            (),
        ),
        0 <= i < old(state).leases.entries@.len(),
        0 <= at < sent@.len(),
        old(state).leases.entries@[i].1.state == (ExternalLeaseState::Draft {
            native: sent@[at].native,
        }),
        forall|k: int| 0 <= k < at ==> (#[trigger] sent@[k]).native != sent@[at].native,
    ensures
        ({
            let before = old(state).leases.entries@[i];
            let after = final(state).leases.entries@[i];
            let owned = text_at(
                text@,
                sent@[at].range.start as int,
                sent@[at].range.end as int,
            );
            let is_sent = before.1.thread_id@ == thread_id@ && owned is Some && text_digest(
                owned->0,
            ) == before.1.expected_hash;
            &&& after.0 == before.0
            &&& is_sent ==> {
                &&& after.1 == (ExternalLease { state: after.1.state, ..before.1 })
                &&& after.1.state matches ExternalLeaseState::SubmissionPending { receipt }
                &&& receipt.submission_id == submission_id
                &&& receipt.submitted_text == text
                &&& receipt.range == sent@[at].range
            }
            &&& !is_sent ==> after == before
        }),
{
    range_of_native(sent@, sent@[at].native, at, 0);
}

/// A lease that the message does not carry stays as it is.
pub proof fn an_unsent_lease_stays_as_it_is(
    state: &mut ComposerControlState,
    thread_id: &str,
    submission_id: Uuid,
    text: String,
    sent: Vec<NativeSubmittedLease>,
    i: int,
)
    requires
        old(state).well_formed(),
        call_ensures(
            ComposerControlState::note_submission_pending_by_native,
            (state, thread_id, submission_id, &text, &sent),
            (),
        ),
        0 <= i < old(state).leases.entries@.len(),
        match old(state).leases.entries@[i].1.state {
            ExternalLeaseState::Draft { native } => forall|k: int|
                0 <= k < sent@.len() ==> (#[trigger] sent@[k]).native != native,
            _ => true,
        },
    ensures
        final(state).leases.entries@[i] == old(state).leases.entries@[i],
        final(state).leases.entries@.len() == old(state).leases.entries@.len(),
        final(state)@.captures == old(state)@.captures,
        final(state)@.fences == old(state)@.fences,
{
    if let ExternalLeaseState::Draft { native } = old(state).leases.entries@[i].1.state {
        no_range_of_native(sent@, native, 0);
    }
}

/// A message in model history makes the leases that wait for it submitted ones, with their receipts;
/// an outcome that was unknown guards nothing from then. Leases of other messages, of other threads,
/// and such as were abandoned stay as they are.
pub proof fn a_lease_is_submitted_with_its_message(
    state: &mut ComposerControlState,
    thread_id: &str,
    submission_id: Uuid,
    i: int,
)
    requires
        old(state).well_formed(),
        call_ensures(
            ComposerControlState::note_submission_committed_id,
            (state, thread_id, submission_id),
            (),
        ),
        0 <= i < old(state).leases.entries@.len(),
    ensures
        ({
            let before = old(state).leases.entries@[i];
            let after = final(state).leases.entries@[i];
            let its = before.1.thread_id@ == thread_id@ && before.1.receipt() is Some
                && before.1.receipt()->0.submission_id == submission_id;
            &&& after.0 == before.0
            &&& !its || before.1.state is SubmissionAbandoned ==> after == before
            &&& its && before.1.state is SubmissionPending ==> after.1.state == (
            ExternalLeaseState::SubmittedIntact { receipt: before.1.receipt()->0 })
            &&& its && !(before.1.state is SubmissionPending) ==> after.1.state == before.1.state
            &&& its && !(before.1.state is SubmissionAbandoned) ==> (
            after.1.submit_attempt matches Some(
                SubmitAttempt::Resolved { result: WireResult::Unknown, guard },
            ) ==> guard is None)
            &&& after.1.thread_id == before.1.thread_id
            &&& after.1.expected_hash == before.1.expected_hash
        }),
        final(state).leases.entries@.len() == old(state).leases.entries@.len(),
        final(state)@.captures == old(state)@.captures,
{
}

/// A message that will not come into model history abandons the leases that wait for it, and no
/// other ones: from then they answer so.
pub proof fn a_lease_is_abandoned_with_its_message(
    state: &mut ComposerControlState,
    thread_id: &str,
    submission_id: Uuid,
    i: int,
)
    requires
        old(state).well_formed(),
        call_ensures(
            ComposerControlState::note_submission_abandoned_id,
            (state, thread_id, submission_id),
            (),
        ),
        0 <= i < old(state).leases.entries@.len(),
    ensures
        ({
            let before = old(state).leases.entries@[i];
            let after = final(state).leases.entries@[i];
            let waits = before.1.thread_id@ == thread_id@ && (before.1.state matches
                ExternalLeaseState::SubmissionPending { receipt } && receipt.submission_id
                == submission_id);
            &&& after.0 == before.0
            &&& !waits ==> after == before
            &&& waits ==> {
                &&& after.1.state == (ExternalLeaseState::SubmissionAbandoned {
                    receipt: before.1.receipt()->0,
                })
                &&& after.1.submit_attempt == Some(
                    SubmitAttempt::Resolved {
                        result: WireResult::SubmissionAbandoned,
                        guard: None,
                    },
                )
            }
        }),
        final(state).leases.entries@.len() == old(state).leases.entries@.len(),
        final(state)@.fences == old(state)@.fences,
{
}

/// A rollback leaves of its thread no capture and no draft. A lease whose message it took back is
/// abandoned, and one whose message it left is submitted, or waits on with its correction.
pub proof fn a_rollback_settles_the_leases_of_its_thread(
    state: &mut ComposerControlState,
    thread_id: &str,
    surviving: Vec<Uuid>,
    i: int,
)
    requires
        old(state).well_formed(),
        call_ensures(
            ComposerControlState::note_thread_rolled_back,
            (state, thread_id, &surviving),
            (),
        ),
        0 <= i < old(state).leases.entries@.len(),
    ensures
        ({
            let (id, lease) = old(state).leases.entries@[i];
            let after = final(state).leases.entries@;
            &&& lease.thread_id@ != thread_id@ ==> after.contains((id, lease))
            &&& lease.thread_id@ == thread_id@ ==> (lease.receipt() matches Some(receipt) ==> {
                &&& !surviving@.contains(receipt.submission_id) ==> after.contains(
                    (
                        id,
                        ExternalLease {
                            state: ExternalLeaseState::SubmissionAbandoned { receipt },
                            submit_attempt: Some(
                                SubmitAttempt::Resolved {
                                    result: WireResult::SubmissionAbandoned,
                                    guard: None,
                                },
                            ),
                            ..lease
                        },
                    ),
                )
                &&& surviving@.contains(receipt.submission_id) && lease.state is SubmissionPending
                    ==> after.contains(
                    (
                        id,
                        ExternalLease {
                            state: ExternalLeaseState::SubmittedIntact { receipt },
                            ..lease
                        },
                    ),
                )
                &&& surviving@.contains(receipt.submission_id) && !(
                lease.state is SubmissionPending) ==> after.contains((id, lease))
            })
        }),
        forall|k: int|
            0 <= k < final(state).leases.entries@.len() && (
            #[trigger] final(state).leases.entries@[k]).1.thread_id@ == thread_id@ ==> !(
            final(state).leases.entries@[k].1.state is Draft),
        forall|k: int|
            0 <= k < final(state).captures.entries@.len() ==> (
            #[trigger] final(state).captures.entries@[k]).1.thread_id@ != thread_id@,
{
    let rolled = rolled_leases(old(state)@.leases, thread_id@, surviving@);
    let lost = lost_by_rollback(thread_id@);
    retained_are(rolled, lost);
    retained_are(old(state)@.captures, captured_in(thread_id@));
    let entry = rolled[i];
    assert(!lost(entry.1) ==> final(state)@.leases.contains(entry));
    assert forall|k: int|
        0 <= k < final(state).captures.entries@.len() implies (
    #[trigger] final(state).captures.entries@[k]).1.thread_id@ != thread_id@ by {
        assert(!captured_in(thread_id@)(final(state).captures.entries@[k].1));
    }
    assert forall|k: int|
        0 <= k < final(state).leases.entries@.len() && (
        #[trigger] final(state).leases.entries@[k]).1.thread_id@ == thread_id@ implies !(
    final(state).leases.entries@[k].1.state is Draft) by {
        assert(!lost(final(state).leases.entries@[k].1));
    }
}

/// A rollback settles the reservations of its thread alike: a message that it took back is
/// abandoned, and one that it left is submitted, or waits on with its correction. One that was let
/// go is gone with that; one that was never sent, or is of another thread, stays.
pub proof fn a_rollback_settles_the_reservations_of_its_thread(
    table: &mut DirectSendReservations,
    thread_id: &str,
    surviving: Vec<Uuid>,
    i: int,
)
    requires
        old(table).well_formed(),
        call_ensures(
            DirectSendReservations::note_thread_rolled_back,
            (table, thread_id, &surviving),
            (),
        ),
        0 <= i < old(table).reservations.entries@.len(),
    ensures
        ({
            let (id, reservation) = old(table).reservations.entries@[i];
            let after = final(table).reservations.entries@;
            let receipt = match reservation.state {
                DirectSendState::Dispatching { receipt } => Some(receipt),
                DirectSendState::SubmissionPending { receipt } => Some(receipt),
                DirectSendState::SubmittedIntact { receipt } => Some(receipt),
                DirectSendState::CorrectionPending { receipt, .. } => Some(receipt),
                _ => None,
            };
            &&& reservation.thread_id@ != thread_id@ || reservation.state is Reserved
                ==> after.contains((id, reservation))
            &&& reservation.thread_id@ == thread_id@ && !reservation.release_on_settle ==> (
            receipt matches Some(sent) ==> {
                &&& !surviving@.contains(sent.submission_id) ==> after.contains(
                    (
                        id,
                        crate::direct_send::DirectSendReservation {
                            state: DirectSendState::SubmissionAbandoned { receipt: sent },
                            ..reservation
                        },
                    ),
                )
                &&& surviving@.contains(sent.submission_id) && !(
                reservation.state is CorrectionPending) ==> after.contains(
                    (
                        id,
                        crate::direct_send::DirectSendReservation {
                            state: DirectSendState::SubmittedIntact { receipt: sent },
                            ..reservation
                        },
                    ),
                )
                &&& surviving@.contains(sent.submission_id)
                    && reservation.state is CorrectionPending ==> after.contains((id, reservation))
            })
        }),
        final(table).unknown_acknowledged@ == old(table).unknown_acknowledged@,
{
    let rolled = crate::direct_send::rolled_entries(
        old(table).reservations.entries@,
        thread_id@,
        surviving@,
    );
    let released = crate::direct_send::released_by_rollback(thread_id@);
    retained_are(rolled, released);
    let entry = rolled[i];
    assert(!released(entry.1) ==> final(table).reservations.entries@.contains(entry));
}

/// What is no input is let through and changes nothing.
pub proof fn drawing_changes_nothing<T: ComposerControlTarget>(
    state: &mut ComposerControlState,
    target: T,
    disposition: TuiEventDisposition,
)
    requires
        old(state).well_formed(),
        call_ensures(
            ComposerControlState::prepare_tui_event::<T>,
            (state, &TuiEvent::Draw, &target),
            disposition,
        ),
    ensures
        disposition == TuiEventDisposition::Allow,
        final(state)@ == old(state)@,
{
}

/// While a message is dispatched, input that would submit is blocked, and the user is told why the
/// first time and not again. Nothing of the leases changes with that.
pub proof fn input_that_submits_is_blocked_during_a_dispatch<T: ComposerControlTarget>(
    state: &mut ComposerControlState,
    event: TuiEvent,
    target: T,
    fence: FenceId,
    disposition: TuiEventDisposition,
)
    requires
        old(state).well_formed(),
        event is Key || event is Paste,
        target.submits(event),
        fence.index < old(state).fences.fences@.len(),
        call_ensures(
            ComposerControlState::prepare_tui_event_during_submission::<T>,
            (state, &event, &target, fence),
            disposition,
        ),
    ensures
        disposition matches TuiEventDisposition::BlockDispatchingSubmission { disclose }
            && disclose == !old(state).fences.fences@[fence.index as int].disclosed,
        final(state).fences.fences@[fence.index as int].disclosed,
        final(state).fences.fences@[fence.index as int].relinquished == old(state).fences.fences@[
            fence.index as int
        ].relinquished,
        final(state)@.leases == old(state)@.leases,
        final(state)@.captures == old(state)@.captures,
{
}

/// Only input that would submit is blocked, and only while a message of the shown thread is in
/// doubt or one is dispatched.
pub proof fn only_a_second_submit_is_blocked<T: ComposerControlTarget>(
    state: &mut ComposerControlState,
    event: TuiEvent,
    target: T,
    disposition: TuiEventDisposition,
)
    requires
        old(state).well_formed(),
        call_ensures(
            ComposerControlState::prepare_tui_event::<T>,
            (state, &event, &target),
            disposition,
        ),
    ensures
        !target.submits(event) ==> disposition == TuiEventDisposition::Allow,
        !(disposition is BlockDispatchingSubmission),
        target.shown_draft() is None ==> disposition == TuiEventDisposition::Allow && final(state)@
            == old(state)@,
        final(state)@.captures == old(state)@.captures,
        final(state)@.input_epoch == old(state)@.input_epoch,
{
    if let Some(draft) = target.shown_draft() {
        if !target.submits(event) {
            sweeping_blocks_submits_only(old(state)@.leases, old(state)@.fences, draft, 0);
        }
    }
}

proof fn sweeping_blocks_submits_only(
    leases: Seq<(Uuid, ExternalLease)>,
    fences: Seq<crate::fence::SubmitFence>,
    draft: crate::target::SnapshotView,
    from: nat,
)
    ensures
        crate::events::sweep(leases, fences, draft, false, from).blocked is None,
    decreases leases.len() - from,
{
    if from < leases.len() {
        let lease = leases[from as int].1;
        sweeping_blocks_submits_only(leases, fences, draft, from + 1);
        if let Some(fence) = crate::lease::unknown_fence(lease.submit_attempt) {
            sweeping_blocks_submits_only(
                leases.update(from as int, (leases[from as int].0, lease.relinquished())),
                crate::fence::let_go(fences, fence),
                draft,
                from + 1,
            );
        }
    }
}

/// A draft that was changed by an event is the user's own: a message in doubt that was sent with
/// another text guards it no longer. One that was sent with the very draft that is shown, or in
/// another thread, still does.
pub proof fn a_changed_draft_is_the_users_own<T: ComposerControlTarget>(
    state: &mut ComposerControlState,
    target: T,
    i: int,
    fence: FenceId,
)
    requires
        old(state).well_formed(),
        call_ensures(ComposerControlState::finish_tui_event::<T>, (state, &target), ()),
        target.shown_draft() is Some,
        0 <= i < old(state).leases.entries@.len(),
        old(state).leases.entries@[i].1.submit_attempt == Some(
            SubmitAttempt::Resolved { result: WireResult::Unknown, guard: Some(fence) },
        ),
    ensures
        ({
            let before = old(state).leases.entries@[i];
            let after = final(state).leases.entries@[i];
            let draft = target.shown_draft()->0;
            let changed = before.1.thread_id@ == draft.thread_id && before.1.draft_witness.text_hash
                != text_digest(draft.text);
            &&& changed ==> after.1.submit_attempt == Some(
                SubmitAttempt::Resolved { result: WireResult::Unknown, guard: None },
            )
            &&& changed && fence.index < old(state).fences.fences@.len() ==> final(state).fences.fences@[fence.index as int].relinquished
            &&& !changed ==> after == before
            &&& after.0 == before.0
            &&& after.1.state == before.1.state
        }),
        final(state)@.captures == old(state)@.captures,
{
    let draft = target.shown_draft()->0;
    let before = old(state).leases.entries@[i];
    if before.1.thread_id@ == draft.thread_id && before.1.draft_witness.text_hash != text_digest(
        draft.text,
    ) {
        drifted_are_let_go(
            old(state)@.leases,
            old(state)@.fences,
            draft,
            old(state)@.leases.len() as int,
            i,
            fence,
        );
    }
}

proof fn drifted_are_let_go(
    leases: Seq<(Uuid, ExternalLease)>,
    fences: Seq<crate::fence::SubmitFence>,
    draft: crate::target::SnapshotView,
    count: int,
    i: int,
    fence: FenceId,
)
    requires
        0 <= i,
        count <= leases.len(),
        i < leases.len(),
        crate::events::drifted(leases[i].1, draft),
        crate::lease::unknown_fence(leases[i].1.submit_attempt) == Some(fence),
    ensures
        crate::events::settled_fences(leases, fences, draft, count).len() == fences.len(),
        i < count && fence.index < fences.len() ==> crate::events::settled_fences(
            leases,
            fences,
            draft,
            count,
        )[fence.index as int].relinquished,
    decreases count,
{
    if count > 0 {
        drifted_are_let_go(leases, fences, draft, count - 1, i, fence);
    }
}

/// A submission that is noted as pending, as committed or as abandoned is noted with the leases that
/// it carries: each of them that is a draft of the submission's thread, on that very text, first
/// waits for the message and is then submitted or abandoned with it.
pub proof fn leases_follow_their_submission(
    pending: &mut ComposerControlState,
    committed: &mut ComposerControlState,
    abandoned: &mut ComposerControlState,
    submission: NativeComposerSubmission,
    i: int,
    at: int,
)
    requires
        old(pending).well_formed(),
        old(committed)@ == old(pending)@,
        old(abandoned)@ == old(pending)@,
        call_ensures(ComposerControlState::note_submission_pending, (pending, &submission), ()),
        call_ensures(ComposerControlState::note_submission_committed, (committed, &submission), ()),
        call_ensures(ComposerControlState::note_submission_abandoned, (abandoned, &submission), ()),
        0 <= i < old(pending)@.leases.len(),
        0 <= at < submission.leases@.len(),
        old(pending)@.leases[i].1.state == (ExternalLeaseState::Draft {
            native: submission.leases@[at].native,
        }),
        forall|k: int|
            0 <= k < at ==> (#[trigger] submission.leases@[k]).native
                != submission.leases@[at].native,
        old(pending)@.leases[i].1.thread_id@ == submission.thread_id@,
        text_at(
            submission.submitted_text@,
            submission.leases@[at].range.start as int,
            submission.leases@[at].range.end as int,
        ) is Some,
        text_digest(
            text_at(
                submission.submitted_text@,
                submission.leases@[at].range.start as int,
                submission.leases@[at].range.end as int,
            )->0,
        ) == old(pending)@.leases[i].1.expected_hash,
    ensures
        final(pending)@.leases[i].1.state matches ExternalLeaseState::SubmissionPending { receipt }
            && receipt.submission_id == submission.submission_id && receipt.submitted_text
            == submission.submitted_text && receipt.range == submission.leases@[at].range,
        final(committed)@.leases[i].1.state matches ExternalLeaseState::SubmittedIntact { receipt }
            && receipt.submission_id == submission.submission_id && receipt.range
            == submission.leases@[at].range,
        final(abandoned)@.leases[i].1.state matches ExternalLeaseState::SubmissionAbandoned {
            receipt,
        } && receipt.submission_id == submission.submission_id && receipt.range
            == submission.leases@[at].range,
        final(pending)@.leases[i].0 == old(pending)@.leases[i].0,
        final(committed)@.leases[i].0 == old(pending)@.leases[i].0,
        final(abandoned)@.leases[i].0 == old(pending)@.leases[i].0,
{
    range_of_native(submission.leases@, submission.leases@[at].native, at, 0);
}

/// A lease that waits for another submission, or is of another thread, follows none.
pub proof fn foreign_leases_do_not_follow(
    pending: &mut ComposerControlState,
    committed: &mut ComposerControlState,
    abandoned: &mut ComposerControlState,
    submission: NativeComposerSubmission,
    i: int,
)
    requires
        old(pending).well_formed(),
        old(committed)@ == old(pending)@,
        old(abandoned)@ == old(pending)@,
        call_ensures(ComposerControlState::note_submission_pending, (pending, &submission), ()),
        call_ensures(ComposerControlState::note_submission_committed, (committed, &submission), ()),
        call_ensures(ComposerControlState::note_submission_abandoned, (abandoned, &submission), ()),
        0 <= i < old(pending)@.leases.len(),
        old(pending)@.leases[i].1.thread_id@ != submission.thread_id@ || (
        old(pending)@.leases[i].1.receipt() matches Some(receipt) && receipt.submission_id
            != submission.submission_id),
    ensures
        final(pending)@.leases[i] == old(pending)@.leases[i],
        final(committed)@.leases[i] == old(pending)@.leases[i],
        final(abandoned)@.leases[i] == old(pending)@.leases[i],
        final(pending)@.captures == old(pending)@.captures,
        final(committed)@.captures == old(pending)@.captures,
        final(abandoned)@.captures == old(pending)@.captures,
{
}

/// A measured correction is dispatched where it was not cut, with its last draft and under its own
/// identity; a cut one is refused and changes nothing.
pub proof fn a_cut_correction_is_refused(
    state: &mut ComposerControlState,
    proposal: CorrectionProposal,
    truncated: bool,
    outcome: crate::requests::RequestOutcome,
)
    requires
        old(state).well_formed(),
        proposal.drafts@.len() > 0,
        call_ensures(
            ComposerControlState::handle_measured_correction,
            (state, proposal, truncated),
            outcome,
        ),
    ensures
        outcome is Reply || outcome is Pending,
        truncated ==> outcome is Reply && final(state)@.leases == old(state)@.leases && final(state)@.direct_sends.reservations == old(state)@.direct_sends.reservations,
        outcome matches crate::requests::RequestOutcome::Pending(action) ==> (action matches
            crate::requests::PendingComposerControlAction::Correction(correction)
            && correction.payload@ == proposal.drafts@.last()@ && correction.correction_id
            == proposal.correction_id && correction.lease_id == proposal.lease_id
            && correction.origin == proposal.origin),
        outcome matches crate::requests::RequestOutcome::Reply(result) ==> result == refused_for(
            ErrorCode::LeaseUnavailable,
        ) || result == refused_for(ErrorCode::CorrectionUnavailable),
{
}

/// The end of a composer-free dispatch settles the reservation that it was made under, and touches
/// neither leases nor captures.
pub proof fn a_direct_dispatch_touches_no_lease(
    state: &mut ComposerControlState,
    pending: crate::direct_send::DirectPreparedSubmission,
    outcome: SubmissionDispatchOutcome,
    result: WireResult,
)
    requires
        old(state).well_formed(),
        call_ensures(
            ComposerControlState::finish_direct_submission,
            (state, pending, outcome),
            result,
        ),
    ensures
        final(state)@.leases == old(state)@.leases,
        final(state)@.captures == old(state)@.captures,
        final(state)@.fences == old(state)@.fences,
        old(state).direct_sends.reserved(pending.reservation_id) && (old(state).direct_sends.reservation(pending.reservation_id).state matches
            DirectSendState::Dispatching { receipt } && receipt.submission_id
            == pending.submission.submission_id) ==> (outcome is Accepted <==> result
            == WireResult::SendAccepted) && (outcome is Unknown
            || outcome is AcceptedButUncommitted <==> result == WireResult::Unknown),
{
}

/// What becomes of a message by its identity alone concerns leases, and no reservation.
pub proof fn notes_by_identity_touch_no_reservation(
    pending: &mut ComposerControlState,
    committed: &mut ComposerControlState,
    abandoned: &mut ComposerControlState,
    thread_id: &str,
    submission_id: Uuid,
    text: String,
    sent: Vec<NativeSubmittedLease>,
)
    requires
        call_ensures(
            ComposerControlState::note_submission_pending_by_native,
            (pending, thread_id, submission_id, &text, &sent),
            (),
        ),
        call_ensures(
            ComposerControlState::note_submission_committed_id,
            (committed, thread_id, submission_id),
            (),
        ),
        call_ensures(
            ComposerControlState::note_submission_abandoned_id,
            (abandoned, thread_id, submission_id),
            (),
        ),
    ensures
        final(pending).direct_sends == old(pending).direct_sends,
        final(committed).direct_sends == old(committed).direct_sends,
        final(abandoned).direct_sends == old(abandoned).direct_sends,
        final(pending)@.kept_leases == old(pending)@.kept_leases,
        final(committed)@.kept_leases == old(committed)@.kept_leases,
        final(abandoned)@.kept_leases == old(abandoned)@.kept_leases,
{
}

/// A composer-free submission that its reservation waits for is noted with it: as on its way, as
/// submitted, or as abandoned.
pub proof fn a_reservation_follows_its_submission(
    pending: &mut ComposerControlState,
    committed: &mut ComposerControlState,
    abandoned: &mut ComposerControlState,
    submission: NativeComposerSubmission,
    lease_id: Uuid,
)
    requires
        old(pending).well_formed(),
        *old(committed) == *old(pending),
        *old(abandoned) == *old(pending),
        call_ensures(ComposerControlState::note_submission_pending, (pending, &submission), ()),
        call_ensures(ComposerControlState::note_submission_committed, (committed, &submission), ()),
        call_ensures(ComposerControlState::note_submission_abandoned, (abandoned, &submission), ()),
        submission.direct_lease_id == Some(lease_id),
        old(pending).direct_sends.reserved(lease_id),
        !old(pending).direct_sends.reservation(lease_id).release_on_settle,
        crate::direct_laws::waits_for(
            old(pending).direct_sends.reservation(lease_id),
            submission,
        ),
    ensures
        final(pending).direct_sends.reservation(lease_id).state is SubmissionPending,
        final(committed).direct_sends.reservation(lease_id).state is SubmittedIntact,
        final(abandoned).direct_sends.reservation(lease_id).state is SubmissionAbandoned,
        final(pending).direct_sends.reserved(lease_id),
        final(committed).direct_sends.reserved(lease_id),
        final(abandoned).direct_sends.reserved(lease_id),
{
    let table = old(pending).direct_sends;
    let reservation = table.reservation(lease_id);
    assert(table.is_awaited(submission@));
    if let DirectSendState::SubmissionPending { receipt } = final(pending).direct_sends.reservation(lease_id).state {
        refiled_keeps_others(
            table.reservations.entries@,
            lease_id,
            reservation.in_state(DirectSendState::SubmissionPending { receipt }),
        );
    }
    let waited = choose|waited: DirectSendReservations|
        #[trigger] table.pending_step(waited, submission@) && waited.well_formed()
            && waited.committed_step(final(committed).direct_sends, submission@);
    settles_after_waiting(table, waited, submission, lease_id);
    if let DirectSendState::SubmittedIntact { receipt } = final(committed).direct_sends.reservation(lease_id).state {
        refiled_keeps_others(
            waited.reservations.entries@,
            lease_id,
            waited.reservation(lease_id).in_state(DirectSendState::SubmittedIntact { receipt }),
        );
    }
    let lost = choose|lost: DirectSendReservations|
        #[trigger] table.pending_step(lost, submission@) && lost.well_formed()
            && lost.abandoned_step(final(abandoned).direct_sends, submission@);
    settles_after_waiting(table, lost, submission, lease_id);
    if let DirectSendState::SubmissionAbandoned { receipt } = final(abandoned).direct_sends.reservation(lease_id).state {
        refiled_keeps_others(
            lost.reservations.entries@,
            lease_id,
            lost.reservation(lease_id).in_state(DirectSendState::SubmissionAbandoned { receipt }),
        );
    }
}

proof fn settles_after_waiting(
    table: DirectSendReservations,
    waited: DirectSendReservations,
    submission: NativeComposerSubmission,
    lease_id: Uuid,
)
    requires
        table.well_formed(),
        table.reserved(lease_id),
        submission.direct_lease_id == Some(lease_id),
        table.is_awaited(submission@),
        table.pending_step(waited, submission@),
    ensures
        waited.reserved(lease_id),
        waited.reservation(lease_id).state is SubmissionPending,
        waited.reservation(lease_id) == table.reservation(lease_id).in_state(
            waited.reservation(lease_id).state,
        ),
        waited.is_awaited(submission@),
{
    if let DirectSendState::SubmissionPending { receipt } = waited.reservation(lease_id).state {
        refiled_keeps_others(
            table.reservations.entries@,
            lease_id,
            table.reservation(lease_id).in_state(DirectSendState::SubmissionPending { receipt }),
        );
    }
}

/// A message in model history lets go of the fence behind which its outcome was unknown.
pub proof fn a_known_outcome_lets_go_of_its_fence(
    state: &mut ComposerControlState,
    thread_id: &str,
    submission_id: Uuid,
    i: int,
    fence: FenceId,
)
    requires
        old(state).well_formed(),
        call_ensures(
            ComposerControlState::note_submission_committed_id,
            (state, thread_id, submission_id),
            (),
        ),
        0 <= i < old(state).leases.entries@.len(),
        old(state).leases.entries@[i].1.thread_id@ == thread_id@,
        old(state).leases.entries@[i].1.state matches ExternalLeaseState::SubmissionPending {
            receipt,
        } && receipt.submission_id == submission_id,
        old(state).leases.entries@[i].1.submit_attempt == Some(
            SubmitAttempt::Resolved { result: WireResult::Unknown, guard: Some(fence) },
        ),
        fence.index < old(state).fences.fences@.len(),
    ensures
        final(state).fences.fences@[fence.index as int].relinquished,
{
    committed_are_let_go(
        old(state)@.leases,
        old(state)@.fences,
        thread_id@,
        submission_id,
        old(state)@.leases.len() as int,
        i,
        fence,
    );
}

proof fn committed_are_let_go(
    leases: Seq<(Uuid, ExternalLease)>,
    fences: Seq<crate::fence::SubmitFence>,
    thread_id: Seq<char>,
    submission_id: Uuid,
    count: int,
    i: int,
    fence: FenceId,
)
    requires
        0 <= i < leases.len(),
        count <= leases.len(),
        crate::lifecycle::is_committed_by(leases[i].1, thread_id, submission_id),
        crate::lease::unknown_fence(leases[i].1.submit_attempt) == Some(fence),
        fence.index < fences.len(),
    ensures
        crate::lifecycle::committed_fences(leases, fences, thread_id, submission_id, count).len()
            == fences.len(),
        i < count ==> crate::lifecycle::committed_fences(
            leases,
            fences,
            thread_id,
            submission_id,
            count,
        )[fence.index as int].relinquished,
    decreases count,
{
    if count > 0 {
        committed_are_let_go(leases, fences, thread_id, submission_id, count - 1, i, fence);
    }
}

/// A rollback of a thread reaches its reservations too, and leaves the leases of others.
pub proof fn a_rollback_reaches_both_tables(
    state: &mut ComposerControlState,
    table: &mut DirectSendReservations,
    thread_id: &str,
    surviving: Vec<Uuid>,
)
    requires
        old(state).well_formed(),
        *old(table) == old(state).direct_sends,
        call_ensures(
            ComposerControlState::note_thread_rolled_back,
            (state, thread_id, &surviving),
            (),
        ),
        call_ensures(
            DirectSendReservations::note_thread_rolled_back,
            (table, thread_id, &surviving),
            (),
        ),
    ensures
        final(state).direct_sends@ == final(table)@,
        final(state)@.fences == old(state)@.fences,
        final(state)@.kept_leases == old(state)@.kept_leases,
        final(state)@.input_epoch == old(state)@.input_epoch,
{
}

} // verus!
