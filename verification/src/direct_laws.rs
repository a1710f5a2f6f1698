//! What a composer-free send answers at each of its stages, and what it leaves as it was.
use crate::control_laws::refused_for;
use crate::digest::text_digest;
use crate::direct_send::{
    prepare_correction, propose_correction, state_wire_result, DirectPreparedSubmission,
    DirectSendReservation, DirectSendReservations, DirectSendState,
};
use crate::hunks::cannot_spell;
use crate::ids::Uuid;
use crate::ledger::{holds, index_is, refiled_keeps_others, without, without_keeps_others};
use crate::receipt::{
    CorrectionDispatchOutcome, CorrectionOrigin, CorrectionProposal, PreparedCorrection,
    ReplaceOutcome, SubmissionDispatchOutcome, SubmittedLeaseReceipt,
};
use crate::submission::{client_message_id_of, NativeComposerSubmission};
use crate::text::utf8;
use crate::wire::{ErrorCode, WireResult};
use vstd::prelude::*;
use vstd::string::*;

verus! {

/// Every other reservation is as it was.
pub open spec fn other_reservations_kept(
    before: DirectSendReservations,
    after: DirectSendReservations,
    id: Uuid,
) -> bool {
    forall|other: Uuid| #![trigger after.reserved(other)]
        other != id ==> after.reserved(other) == before.reserved(other) && (before.reserved(other)
            ==> after.reservation(other) == before.reservation(other))
}

/// Nothing is reserved, let go or acknowledged that was not.
pub open spec fn all_kept(before: DirectSendReservations, after: DirectSendReservations) -> bool {
    &&& after.reservations.entries@ == before.reservations.entries@
    &&& after.kept@ == before.kept@
    &&& after.unknown_acknowledged@ == before.unknown_acknowledged@
}

/// A receipt that owns the whole of a message.
pub open spec fn owns_all(
    receipt: SubmittedLeaseReceipt,
    submission_id: Uuid,
    text: Seq<char>,
) -> bool {
    &&& receipt.submission_id == submission_id
    &&& receipt.submitted_text@ == text
    &&& receipt.range.start == 0
    &&& receipt.range.end == utf8(text).len()
}

/// A stage answers what is known of its message, and none answers that a message was sent of which
/// that is not known.
pub proof fn a_stage_answers_what_is_known(state: DirectSendState, result: WireResult)
    requires
        call_ensures(state_wire_result, (&state,), result),
    ensures
        state is Reserved ==> result == refused_for(ErrorCode::SubmissionUnavailable),
        state is Dispatching ==> result == WireResult::Unknown,
        state is SubmissionPending ==> result == WireResult::SubmissionPending,
        state is SubmittedIntact || state is CorrectionPending ==> result
            == WireResult::SubmittedIntact,
        state is SubmissionAbandoned ==> result == WireResult::SubmissionAbandoned,
        state matches DirectSendState::Resolved { result: known, .. } ==> result == known,
{
}

/// What a table holds is found, and what was let go is remembered apart for each way of it.
pub proof fn what_was_let_go_is_remembered(
    table: DirectSendReservations,
    id: Uuid,
    held: bool,
    kept: bool,
    acknowledged: bool,
)
    requires
        call_ensures(DirectSendReservations::contains, (&table, id), held),
        call_ensures(DirectSendReservations::contains_keep_id, (&table, id), kept),
        call_ensures(DirectSendReservations::contains_acknowledgement_id, (&table, id), acknowledged),
    ensures
        held <==> exists|i: int|
            0 <= i < table.reservations.entries@.len() && (
            #[trigger] table.reservations.entries@[i]).0 == id,
        kept <==> held || table.kept@.contains(id),
        acknowledged <==> held || table.unknown_acknowledged@.contains(id),
{
}

/// A reservation is made for the thread and the chronology that it was asked for, under an
/// identifier that is not in use, and with nothing sent. The newest is last, and there are never
/// more than 256.
pub proof fn a_reservation_is_made_for_its_thread(
    table: &mut DirectSendReservations,
    thread_id: String,
    epoch: u64,
    result: WireResult,
)
    requires
        old(table).well_formed(),
        call_ensures(DirectSendReservations::acquire, (table, thread_id, epoch), result),
    ensures
        result is Reserved || result == refused_for(ErrorCode::LeaseUnavailable),
        result matches WireResult::Reserved { lease_id } ==> {
            let made = final(table).reservations.entries@.last();
            &&& made.0 == lease_id
            &&& made.1.thread_id@ == thread_id@
            &&& made.1.user_chronology_epoch == epoch
            &&& made.1.state is Reserved
            &&& made.1.content_hash is None
            &&& !made.1.release_on_settle
            &&& !old(table).kept@.contains(lease_id)
            &&& !old(table).unknown_acknowledged@.contains(lease_id)
        },
        old(table).reservations.entries@.len() < 256 ==> result is Reserved && final(table).reservations.entries@.drop_last() == old(table).reservations.entries@,
        final(table).reservations.entries@.len() <= 256,
        final(table).kept@ == old(table).kept@,
        final(table).unknown_acknowledged@ == old(table).unknown_acknowledged@,
{
}

/// What is dispatched under a reservation is what was asked for, in the reservation's thread and
/// under its identity, and only where the reservation is still the one that was made: never sent,
/// in the thread that is shown, and in the chronology that it was made in. From then it is under
/// way with exactly that message.
pub proof fn a_reservation_is_dispatched_as_asked(
    table: &mut DirectSendReservations,
    lease_id: Uuid,
    expected: String,
    thread_id: Option<String>,
    epoch: u64,
    prepared: Result<DirectPreparedSubmission, WireResult>,
)
    requires
        old(table).well_formed(),
        call_ensures(
            DirectSendReservations::prepare_submission,
            (table, lease_id, expected, &thread_id, epoch),
            prepared,
        ),
    ensures
        prepared is Ok <==> old(table).reserved(lease_id) && ({
            let reservation = old(table).reservation(lease_id);
            &&& reservation.state is Reserved
            &&& reservation.content_hash is None || reservation.content_hash == Some(
                text_digest(expected@),
            )
            &&& thread_id matches Some(shown)
            &&& shown@ == reservation.thread_id@
            &&& epoch == reservation.user_chronology_epoch
        }),
        prepared matches Ok(ready) ==> {
            let reservation = old(table).reservation(lease_id);
            let after = final(table).reservation(lease_id);
            &&& ready.reservation_id == lease_id
            &&& ready.expected == expected
            &&& ready.submission.submitted_text@ == expected@
            &&& ready.submission.thread_id@ == reservation.thread_id@
            &&& ready.submission.submission_id == reservation.submission_id
            &&& ready.submission.direct_lease_id == Some(lease_id)
            &&& after.content_hash == Some(text_digest(expected@))
            &&& after.submission_id == reservation.submission_id
            &&& after.state matches DirectSendState::Dispatching { receipt }
            &&& owns_all(receipt, reservation.submission_id, expected@)
        },
        other_reservations_kept(*old(table), *final(table), lease_id),
        final(table).kept@ == old(table).kept@,
{
    let reservation = old(table).reservation(lease_id);
    if old(table).reserved(lease_id) {
        refiled_keeps_others(
            old(table).reservations.entries@,
            lease_id,
            final(table).reservation(lease_id),
        );
        let latched = reservation.latched(text_digest(expected@));
        refiled_keeps_others(old(table).reservations.entries@, lease_id, latched);
        refiled_keeps_others(
            old(table).reservations.entries@,
            lease_id,
            latched.in_state(
                DirectSendState::Resolved {
                    result: refused_for(ErrorCode::ReservationChanged),
                    sent: None,
                },
            ),
        );
        if let DirectSendState::Dispatching { receipt } = final(table).reservation(lease_id).state {
            refiled_keeps_others(
                old(table).reservations.entries@,
                lease_id,
                latched.in_state(DirectSendState::Dispatching { receipt }),
            );
        }
    }
    if let Ok(ready) = prepared {
        assert(ready.submission@.submitted_text == expected@);
        assert(ready.submission@.thread_id == reservation.thread_id@);
        assert(ready.submission@.submission_id == reservation.submission_id);
        assert(ready.submission@.direct_lease_id == Some(lease_id));
    }
}

/// A submit that is not dispatched is answered by why: the reservation is not there, its content is
/// another one, its message is on its way or settled, or the user has moved on.
pub proof fn a_refused_reservation_says_why(
    table: &mut DirectSendReservations,
    lease_id: Uuid,
    expected: String,
    thread_id: Option<String>,
    epoch: u64,
    prepared: Result<DirectPreparedSubmission, WireResult>,
)
    requires
        old(table).well_formed(),
        call_ensures(
            DirectSendReservations::prepare_submission,
            (table, lease_id, expected, &thread_id, epoch),
            prepared,
        ),
    ensures
        !old(table).reserved(lease_id) ==> prepared == Err::<DirectPreparedSubmission, _>(
            refused_for(ErrorCode::LeaseUnavailable),
        ) && all_kept(*old(table), *final(table)),
        old(table).reserved(lease_id) ==> {
            let reservation = old(table).reservation(lease_id);
            let same = reservation.content_hash is None || reservation.content_hash == Some(
                text_digest(expected@),
            );
            &&& !same ==> prepared == Err::<DirectPreparedSubmission, _>(
                refused_for(ErrorCode::ExpectedMismatch),
            ) && all_kept(*old(table), *final(table))
            &&& same && reservation.state is SubmissionPending ==> prepared == Err::<
                DirectPreparedSubmission,
                _,
            >(WireResult::SendAccepted)
            &&& same && reservation.state is Dispatching ==> prepared == Err::<
                DirectPreparedSubmission,
                _,
            >(WireResult::Unknown)
            &&& same && reservation.state is SubmittedIntact ==> prepared == Err::<
                DirectPreparedSubmission,
                _,
            >(WireResult::SubmittedIntact)
            &&& same && reservation.state is SubmissionAbandoned ==> prepared == Err::<
                DirectPreparedSubmission,
                _,
            >(WireResult::SubmissionAbandoned)
            &&& same && reservation.state is Reserved && prepared is Err ==> prepared == Err::<
                DirectPreparedSubmission,
                _,
            >(refused_for(ErrorCode::ReservationChanged))
        },
{
}

/// A dispatch that ended settles its own message: taken, it waits in model history; refused, it is
/// known not to be sent; else its outcome stays unknown, with the message that may have been sent.
/// The end of another message is refused.
pub proof fn a_dispatch_settles_its_own_message(
    table: &mut DirectSendReservations,
    lease_id: Uuid,
    submission_id: Uuid,
    outcome: SubmissionDispatchOutcome,
    result: WireResult,
)
    requires
        old(table).well_formed(),
        call_ensures(
            DirectSendReservations::finish_submission,
            (table, lease_id, submission_id, outcome),
            result,
        ),
    ensures
        !old(table).reserved(lease_id) ==> result == refused_for(ErrorCode::LeaseUnavailable)
            && all_kept(*old(table), *final(table)),
        old(table).reserved(lease_id) && !(old(table).reservation(lease_id).state is Dispatching)
            ==> all_kept(*old(table), *final(table)),
        old(table).reserved(lease_id) ==> (old(table).reservation(lease_id).state matches
            DirectSendState::Dispatching { receipt } ==> {
            let after = final(table).reservation(lease_id).state;
            &&& receipt.submission_id != submission_id ==> result == refused_for(
                ErrorCode::ExpectedMismatch,
            ) && all_kept(*old(table), *final(table))
            &&& receipt.submission_id == submission_id ==> {
                &&& outcome is Accepted ==> result == WireResult::SendAccepted && after == (
                DirectSendState::SubmissionPending { receipt })
                &&& outcome matches SubmissionDispatchOutcome::NotApplied(code) ==> result
                    == refused_for(code) && after == (DirectSendState::Resolved {
                    result: refused_for(code),
                    sent: None,
                })
                &&& outcome is Unknown || outcome is AcceptedButUncommitted ==> result
                    == WireResult::Unknown && after == (DirectSendState::Resolved {
                    result: WireResult::Unknown,
                    sent: Some(receipt),
                })
            }
        }),
        other_reservations_kept(*old(table), *final(table), lease_id),
{
    if old(table).reserved(lease_id) {
        let reservation = old(table).reservation(lease_id);
        if let DirectSendState::Dispatching { receipt } = reservation.state {
            refiled_keeps_others(
                old(table).reservations.entries@,
                lease_id,
                reservation.in_state(
                    match outcome {
                        SubmissionDispatchOutcome::Accepted => {
                            DirectSendState::SubmissionPending { receipt }
                        },
                        SubmissionDispatchOutcome::NotApplied(code) => {
                            DirectSendState::Resolved { result: refused_for(code), sent: None }
                        },
                        _ => DirectSendState::Resolved {
                            result: WireResult::Unknown,
                            sent: Some(receipt),
                        },
                    },
                ),
            );
        }
    }
}

/// A reservation is verified where it was never sent and is the one that was made; one that was
/// sent answers what is known of its message.
pub proof fn a_reservation_is_verified_as_it_was_made(
    table: DirectSendReservations,
    lease_id: Uuid,
    expected: &str,
    thread_id: Option<String>,
    epoch: u64,
    result: WireResult,
)
    requires
        call_ensures(
            DirectSendReservations::verify,
            (&table, lease_id, expected, &thread_id, epoch),
            result,
        ),
    ensures
        !table.reserved(lease_id) ==> result == refused_for(ErrorCode::LeaseUnavailable),
        table.reserved(lease_id) ==> {
            let reservation = table.reservation(lease_id);
            let same = reservation.content_hash is None || reservation.content_hash == Some(
                text_digest(expected@),
            );
            let current = (thread_id matches Some(shown) && shown@ == reservation.thread_id@)
                && epoch == reservation.user_chronology_epoch;
            &&& !same ==> result == refused_for(ErrorCode::ExpectedMismatch)
            &&& same && reservation.state is Reserved && current ==> result == WireResult::Verified
            &&& same && reservation.state is Reserved && !current ==> result == refused_for(
                ErrorCode::ReservationChanged,
            )
            &&& same && reservation.state is SubmittedIntact ==> result
                == WireResult::SubmittedIntact
            &&& same && reservation.state is SubmissionPending ==> result
                == WireResult::SubmissionPending
            &&& same && reservation.state is Dispatching ==> result == WireResult::Unknown
            &&& same && reservation.state is SubmissionAbandoned ==> result
                == WireResult::SubmissionAbandoned
        },
{
}

/// A reservation that has settled, or was never sent, is let go and remembered as kept. One whose
/// message is on its way stays, and is let go when that settles.
pub proof fn a_message_on_its_way_is_kept_until_it_settles(
    table: &mut DirectSendReservations,
    lease_id: Uuid,
    result: WireResult,
)
    requires
        old(table).well_formed(),
        call_ensures(DirectSendReservations::keep, (table, lease_id), result),
    ensures
        !old(table).reserved(lease_id) ==> all_kept(*old(table), *final(table)) && (result
            == WireResult::Kept <==> old(table).kept@.contains(lease_id)),
        old(table).reserved(lease_id) ==> {
            let before = old(table).reservation(lease_id);
            let after = final(table).reservation(lease_id);
            &&& before.state is Reserved || before.state is SubmittedIntact
                || before.state is SubmissionAbandoned ==> result == WireResult::Kept && !final(table).reserved(lease_id) && final(table).kept@.contains(lease_id)
            &&& before.state is SubmissionPending ==> result == WireResult::Kept && final(table).reserved(lease_id) && after == (DirectSendReservation {
                release_on_settle: true,
                ..before
            })
            &&& before.state is Dispatching ==> result == WireResult::Unknown && final(table).reserved(lease_id) && after == (DirectSendReservation {
                release_on_settle: true,
                ..before
            })
            &&& before.state is CorrectionPending ==> result == refused_for(
                ErrorCode::LeaseUnavailable,
            ) && all_kept(*old(table), *final(table))
            &&& (before.state matches DirectSendState::Resolved { result: known, .. } && known
                == WireResult::Unknown) ==> result == WireResult::Unknown && after == (
            DirectSendReservation { release_on_settle: true, ..before })
        },
        other_reservations_kept(*old(table), *final(table), lease_id),
{
    let before = old(table).reservation(lease_id);
    without_keeps_others(old(table).reservations.entries@, lease_id);
    if old(table).reserved(lease_id) {
        refiled_keeps_others(
            old(table).reservations.entries@,
            lease_id,
            DirectSendReservation { release_on_settle: true, ..before },
        );
    }
    crate::control_laws::noted_is_listed(old(table).kept@, lease_id, 256);
}

/// Only a reservation whose outcome is unknown can be acknowledged; it is then gone and remembered
/// as acknowledged. Any other one answers what is known, and stays.
pub proof fn only_an_unknown_send_is_acknowledged(
    table: &mut DirectSendReservations,
    lease_id: Uuid,
    result: WireResult,
)
    requires
        old(table).well_formed(),
        call_ensures(DirectSendReservations::acknowledge_unknown, (table, lease_id), result),
    ensures
        !old(table).reserved(lease_id) ==> all_kept(*old(table), *final(table)) && (result
            == WireResult::UnknownAcknowledged <==> old(table).unknown_acknowledged@.contains(
            lease_id,
        )),
        old(table).reserved(lease_id) ==> {
            let state = old(table).reservation(lease_id).state;
            let unknown = state matches DirectSendState::Resolved { result: known, .. } && known
                == WireResult::Unknown;
            &&& unknown ==> result == WireResult::UnknownAcknowledged && !final(table).reserved(
                lease_id,
            ) && final(table).unknown_acknowledged@.contains(lease_id)
            &&& !unknown ==> all_kept(*old(table), *final(table))
            &&& state is Dispatching ==> result == WireResult::Unknown
            &&& state is SubmissionPending ==> result == WireResult::SubmissionPending
            &&& state is SubmittedIntact ==> result == WireResult::SubmittedIntact
        },
        other_reservations_kept(*old(table), *final(table), lease_id),
{
    without_keeps_others(old(table).reservations.entries@, lease_id);
    crate::control_laws::noted_is_listed(old(table).unknown_acknowledged@, lease_id, 256);
}

/// A proposal names the lease, the thread, the receipt and the two texts that it was made for.
pub proof fn a_proposal_is_for_what_was_asked(
    lease_id: Uuid,
    origin: CorrectionOrigin,
    thread_id: String,
    receipt: SubmittedLeaseReceipt,
    expected: String,
    replacement: String,
    proposal: Option<CorrectionProposal>,
)
    requires
        receipt.owned() == Some(expected@),
        expected@ != replacement@,
        call_ensures(
            propose_correction,
            (lease_id, origin, thread_id, receipt, expected, replacement),
            proposal,
        ),
    ensures
        proposal is None ==> cannot_spell(expected@, replacement@),
        proposal matches Some(made) ==> {
            &&& made.lease_id == lease_id
            &&& made.origin == origin
            &&& made.thread_id == thread_id
            &&& made.receipt == receipt
            &&& made.expected == expected
            &&& made.replacement == replacement
            &&& made.drafts@.len() > 0
        },
{
}

/// A correction that is prepared amends the message of its submission, and carries its identity,
/// thread and text unchanged.
pub proof fn a_prepared_correction_amends_its_message(
    lease_id: Uuid,
    origin: CorrectionOrigin,
    thread_id: String,
    correction_id: Uuid,
    submission_id: Uuid,
    payload: String,
    client_id: String,
    correction: PreparedCorrection,
)
    requires
        call_ensures(client_message_id_of, (submission_id,), client_id),
        call_ensures(
            prepare_correction,
            (lease_id, origin, thread_id, correction_id, submission_id, payload),
            correction,
        ),
    ensures
        correction.expected_client_user_message_id@ == client_id@,
        correction.lease_id == lease_id,
        correction.origin == origin,
        correction.thread_id == thread_id,
        correction.correction_id == correction_id,
        correction.payload == payload,
{
}

/// A sent message is corrected by proposal only where it is in model history and the receipt owns
/// the expected text; a correction that waits is dispatched again for the same texts. Nothing
/// changes either way, but that a correction which changes nothing lets the reservation go.
pub proof fn a_sent_message_is_corrected_by_proposal(
    table: &mut DirectSendReservations,
    lease_id: Uuid,
    expected: String,
    replacement: String,
    outcome: ReplaceOutcome,
)
    requires
        old(table).well_formed(),
        call_ensures(DirectSendReservations::replace, (table, lease_id, expected, replacement), outcome),
    ensures
        !old(table).reserved(lease_id) ==> outcome == ReplaceOutcome::Complete(
            refused_for(ErrorCode::LeaseUnavailable),
        ),
        old(table).reserved(lease_id) && old(table).reservation(lease_id).content_hash != Some(
            text_digest(expected@),
        ) ==> outcome == ReplaceOutcome::Complete(refused_for(ErrorCode::ExpectedMismatch)),
        outcome matches ReplaceOutcome::Propose(proposal) ==> {
            &&& old(table).reserved(lease_id)
            &&& old(table).reservation(lease_id).state matches DirectSendState::SubmittedIntact {
                receipt,
            }
            &&& proposal.receipt == receipt
            &&& proposal.lease_id == lease_id
            &&& proposal.origin == CorrectionOrigin::Direct
            &&& proposal.thread_id == old(table).reservation(lease_id).thread_id
            &&& proposal.expected == expected
            &&& proposal.replacement == replacement
            &&& expected@ != replacement@
        },
        outcome matches ReplaceOutcome::Correct(correction) ==> {
            &&& old(table).reserved(lease_id)
            &&& old(table).reservation(lease_id).state matches DirectSendState::CorrectionPending {
                correction_id,
                expected: first,
                replacement: second,
                payload,
                ..
            }
            &&& correction.correction_id == correction_id
            &&& correction.payload@ == payload@
            &&& correction.lease_id == lease_id
            &&& first@ == expected@ && second@ == replacement@
        },
        old(table).reserved(lease_id) && old(table).reservation(lease_id).content_hash == Some(
            text_digest(expected@),
        ) ==> {
            let state = old(table).reservation(lease_id).state;
            &&& state is Dispatching ==> outcome == ReplaceOutcome::Complete(WireResult::Unknown)
            &&& state is SubmissionPending ==> outcome == ReplaceOutcome::Complete(
                WireResult::SubmissionPending,
            )
            &&& state is SubmissionAbandoned ==> outcome == ReplaceOutcome::Complete(
                WireResult::SubmissionAbandoned,
            )
            &&& state is SubmittedIntact && expected@ == replacement@ ==> outcome
                == ReplaceOutcome::Complete(WireResult::Kept) && !final(table).reserved(lease_id)
            &&& !(state is SubmittedIntact && expected@ == replacement@) ==> all_kept(
                *old(table),
                *final(table),
            )
        },
        other_reservations_kept(*old(table), *final(table), lease_id),
{
    without_keeps_others(old(table).reservations.entries@, lease_id);
}

/// A correction is admitted where its message is still in model history and nothing of it had to be
/// cut: it then waits under its identity, with the last draft as its text, and is dispatched so.
pub proof fn a_whole_correction_is_admitted(
    table: &mut DirectSendReservations,
    proposal: CorrectionProposal,
    truncated: bool,
    outcome: ReplaceOutcome,
)
    requires
        old(table).well_formed(),
        proposal.drafts@.len() > 0,
        call_ensures(DirectSendReservations::admit_correction, (table, proposal, truncated), outcome),
    ensures
        outcome is Correct <==> !truncated && old(table).reserved(proposal.lease_id) && (old(table).reservation(proposal.lease_id).state matches DirectSendState::SubmittedIntact { receipt }
            && receipt.submission_id == proposal.receipt.submission_id),
        outcome matches ReplaceOutcome::Correct(correction) ==> {
            &&& correction.payload@ == proposal.drafts@.last()@
            &&& correction.correction_id == proposal.correction_id
            &&& correction.lease_id == proposal.lease_id
            &&& final(table).reservation(proposal.lease_id).state matches
                DirectSendState::CorrectionPending {
                correction_id,
                expected,
                replacement,
                payload,
                receipt,
            }
            &&& correction_id == proposal.correction_id
            &&& expected == proposal.expected
            &&& replacement == proposal.replacement
            &&& payload@ == proposal.drafts@.last()@
            &&& receipt == proposal.receipt
        },
        !(outcome is Correct) ==> all_kept(*old(table), *final(table)),
        outcome matches ReplaceOutcome::Complete(result) ==> result == refused_for(
            ErrorCode::LeaseUnavailable,
        ) || (truncated && result == refused_for(ErrorCode::CorrectionUnavailable)),
        other_reservations_kept(*old(table), *final(table), proposal.lease_id),
{
    if old(table).reserved(proposal.lease_id) {
        refiled_keeps_others(
            old(table).reservations.entries@,
            proposal.lease_id,
            old(table).reservation(proposal.lease_id).in_state(
                DirectSendState::CorrectionPending {
                    receipt: proposal.receipt,
                    correction_id: proposal.correction_id,
                    expected: proposal.expected,
                    replacement: proposal.replacement,
                    payload: proposal.drafts@.last(),
                },
            ),
        );
    }
}

/// An accepted correction ends its reservation, a refused one puts it back to where it was before,
/// and one whose outcome is unknown stays as it is, to be tried again. The end of another correction
/// changes nothing.
pub proof fn a_correction_ends_by_its_outcome(
    table: &mut DirectSendReservations,
    lease_id: Uuid,
    correction_id: Uuid,
    outcome: CorrectionDispatchOutcome,
    result: WireResult,
)
    requires
        old(table).well_formed(),
        call_ensures(
            DirectSendReservations::finish_correction,
            (table, lease_id, correction_id, outcome),
            result,
        ),
    ensures
        outcome is Accepted <==> result == WireResult::CorrectionQueued,
        outcome is Unknown <==> result == WireResult::CorrectionPending,
        outcome is NotApplied <==> result == refused_for(ErrorCode::CorrectionUnavailable),
        outcome is Unknown ==> all_kept(*old(table), *final(table)),
        ({
            let waits = old(table).reserved(lease_id) && (old(table).reservation(
                lease_id,
            ).state matches DirectSendState::CorrectionPending { correction_id: current, .. }
                && current == correction_id);
            &&& !waits ==> all_kept(*old(table), *final(table))
            &&& waits && outcome is Accepted ==> !final(table).reserved(lease_id)
            &&& waits && outcome is NotApplied ==> final(table).reservation(lease_id).state == (
            DirectSendState::SubmittedIntact {
                receipt: old(table).reservation(lease_id).state->CorrectionPending_receipt,
            })
        }),
        other_reservations_kept(*old(table), *final(table), lease_id),
        final(table).kept@ == old(table).kept@,
{
    without_keeps_others(old(table).reservations.entries@, lease_id);
    if old(table).reserved(lease_id) {
        refiled_keeps_others(
            old(table).reservations.entries@,
            lease_id,
            old(table).reservation(lease_id).in_state(
                DirectSendState::SubmittedIntact {
                    receipt: old(table).reservation(lease_id).state->CorrectionPending_receipt,
                },
            ),
        );
    }
}

/// The reservation waits for this very message: its identity and its content, on its way.
pub open spec fn waits_for(
    reservation: DirectSendReservation,
    submission: NativeComposerSubmission,
) -> bool {
    &&& reservation.submission_id == submission.submission_id
    &&& reservation.content_hash == Some(text_digest(submission.submitted_text@))
    &&& reservation.state is Dispatching || reservation.state is SubmissionPending || (
    reservation.state matches DirectSendState::Resolved { result, .. } && result
        == WireResult::Unknown)
}

/// A message that was taken is noted with the reservation that waits for it, and with no other one.
pub proof fn a_taken_message_is_noted(
    table: &mut DirectSendReservations,
    submission: NativeComposerSubmission,
    lease_id: Uuid,
)
    requires
        old(table).well_formed(),
        submission.direct_lease_id == Some(lease_id),
        call_ensures(DirectSendReservations::note_submission_pending, (table, &submission), ()),
    ensures
        old(table).reserved(lease_id) && waits_for(old(table).reservation(lease_id), submission) ==> {
            &&& final(table).reservation(lease_id).state matches DirectSendState::SubmissionPending {
                receipt,
            }
            &&& owns_all(receipt, submission.submission_id, submission.submitted_text@)
        },
        !(old(table).reserved(lease_id) && waits_for(old(table).reservation(lease_id), submission))
            ==> all_kept(*old(table), *final(table)),
        other_reservations_kept(*old(table), *final(table), lease_id),
{
    if old(table).reserved(lease_id) {
        if let DirectSendState::SubmissionPending { receipt } = final(table).reservation(
            lease_id,
        ).state {
            refiled_keeps_others(
                old(table).reservations.entries@,
                lease_id,
                old(table).reservation(lease_id).in_state(
                    DirectSendState::SubmissionPending { receipt },
                ),
            );
        }
    }
}

/// A message in model history settles its reservation as submitted, with the whole message; one
/// that was let go meanwhile is gone and remembered as kept.
pub proof fn a_message_in_history_settles_its_reservation(
    table: &mut DirectSendReservations,
    submission: NativeComposerSubmission,
    lease_id: Uuid,
)
    requires
        old(table).well_formed(),
        submission.direct_lease_id == Some(lease_id),
        call_ensures(DirectSendReservations::note_submission_committed, (table, &submission), ()),
    ensures
        !old(table).reserved(lease_id) ==> all_kept(*old(table), *final(table)),
        old(table).reserved(lease_id) && old(table).reservation(lease_id).release_on_settle
            ==> !final(table).reserved(lease_id) && final(table).kept@.contains(lease_id),
        old(table).reserved(lease_id) && !old(table).reservation(lease_id).release_on_settle
            && waits_for(old(table).reservation(lease_id), submission) ==> {
            &&& final(table).reservation(lease_id).state matches DirectSendState::SubmittedIntact {
                receipt,
            }
            &&& owns_all(receipt, submission.submission_id, submission.submitted_text@)
        },
        other_reservations_kept(*old(table), *final(table), lease_id),
{
    without_keeps_others(old(table).reservations.entries@, lease_id);
    crate::control_laws::noted_is_listed(old(table).kept@, lease_id, 256);
    if old(table).reserved(lease_id) {
        let before = old(table).reservation(lease_id);
        if let DirectSendState::SubmittedIntact { receipt } = final(table).reservation(
            lease_id,
        ).state {
            refiled_keeps_others(
                old(table).reservations.entries@,
                lease_id,
                before.in_state(DirectSendState::SubmittedIntact { receipt }),
            );
        }
        if let DirectSendState::SubmissionPending { receipt } = before.state {
            refiled_keeps_others(
                old(table).reservations.entries@,
                lease_id,
                before.in_state(DirectSendState::SubmittedIntact { receipt }),
            );
        }
    }
}

/// A message that will not come into model history abandons its own reservation; one that was let go
/// meanwhile is gone and remembered as kept. Nothing happens to the reservation of another message.
pub proof fn a_lost_message_abandons_its_reservation(
    table: &mut DirectSendReservations,
    submission: NativeComposerSubmission,
    lease_id: Uuid,
)
    requires
        old(table).well_formed(),
        submission.direct_lease_id == Some(lease_id),
        call_ensures(DirectSendReservations::note_submission_abandoned, (table, &submission), ()),
    ensures
        !old(table).reserved(lease_id) || old(table).reservation(lease_id).submission_id
            != submission.submission_id ==> all_kept(*old(table), *final(table)),
        old(table).reserved(lease_id) && old(table).reservation(lease_id).submission_id
            == submission.submission_id ==> {
            &&& old(table).reservation(lease_id).release_on_settle ==> !final(table).reserved(
                lease_id,
            ) && final(table).kept@.contains(lease_id)
            &&& !old(table).reservation(lease_id).release_on_settle ==> final(table).reservation(
                lease_id,
            ).state is SubmissionAbandoned
        },
        other_reservations_kept(*old(table), *final(table), lease_id),
{
    without_keeps_others(old(table).reservations.entries@, lease_id);
    crate::control_laws::noted_is_listed(old(table).kept@, lease_id, 256);
    if old(table).reserved(lease_id) {
        let before = old(table).reservation(lease_id);
        if let DirectSendState::SubmissionAbandoned { receipt } = final(table).reservation(
            lease_id,
        ).state {
            refiled_keeps_others(
                old(table).reservations.entries@,
                lease_id,
                before.in_state(DirectSendState::SubmissionAbandoned { receipt }),
            );
        }
    }
}

/// Room for a reservation is made only by such as are known not to be sent or were abandoned: every
/// other one stays, however many there are.
pub proof fn a_reservation_on_its_way_is_not_dropped(
    table: &mut DirectSendReservations,
    thread_id: String,
    epoch: u64,
    result: WireResult,
    i: int,
)
    requires
        old(table).well_formed(),
        call_ensures(DirectSendReservations::acquire, (table, thread_id, epoch), result),
        0 <= i < old(table).reservations.entries@.len(),
        match old(table).reservations.entries@[i].1.state {
            DirectSendState::SubmissionAbandoned { .. } => false,
            DirectSendState::Resolved { result, .. } => result == WireResult::Unknown,
            _ => true,
        },
    ensures
        final(table).reservations.entries@.contains(old(table).reservations.entries@[i]),
{
    let entries = old(table).reservations.entries@;
    unsettled_stay(entries, entries[i]);
    let room = crate::direct_send::with_room(entries);
    let k = choose|k: int| 0 <= k < room.len() && room[k] == entries[i];
    let after = final(table).reservations.entries@;
    if after.len() == room.len() + 1 {
        assert(after.drop_last()[k] == after[k]);
    }
    assert(after[k] == entries[i]);
}

proof fn unsettled_stay(
    entries: Seq<(Uuid, DirectSendReservation)>,
    entry: (Uuid, DirectSendReservation),
)
    requires
        entries.contains(entry),
        !crate::direct_send::is_terminal(entry.1.state),
    ensures
        crate::direct_send::with_room(entries).contains(entry),
    decreases entries.len(),
{
    let wanted = crate::direct_send::terminal_reservation();
    let oldest = crate::ledger::first_where(entries, wanted, 0);
    if entries.len() >= crate::direct_send::MAX_DIRECT_SEND_RESERVATIONS && oldest
        < entries.len() {
        crate::control_laws::first_of(entries, wanted, 0);
        let k = choose|k: int| 0 <= k < entries.len() && entries[k] == entry;
        assert(wanted(entries[oldest as int].1));
        assert(k != oldest);
        let rest = entries.remove(oldest as int);
        if k < oldest {
            assert(rest[k] == entry);
        } else {
            assert(rest[k - 1] == entry);
        }
        unsettled_stay(rest, entry);
    }
}

/// A submission of the composer settles no reservation.
pub proof fn composer_submissions_settle_no_reservation(
    pending: &mut DirectSendReservations,
    committed: &mut DirectSendReservations,
    abandoned: &mut DirectSendReservations,
    submission: NativeComposerSubmission,
)
    requires
        submission.direct_lease_id is None,
        call_ensures(DirectSendReservations::note_submission_pending, (pending, &submission), ()),
        call_ensures(DirectSendReservations::note_submission_committed, (committed, &submission), ()),
        call_ensures(DirectSendReservations::note_submission_abandoned, (abandoned, &submission), ()),
    ensures
        all_kept(*old(pending), *final(pending)),
        all_kept(*old(committed), *final(committed)),
        all_kept(*old(abandoned), *final(abandoned)),
{
}

/// Nothing but an acknowledgement is remembered as one, and an acknowledgement is not remembered as
/// kept.
pub proof fn only_an_acknowledgement_is_remembered_as_one(
    kept: &mut DirectSendReservations,
    prepared: &mut DirectSendReservations,
    finished: &mut DirectSendReservations,
    replaced: &mut DirectSendReservations,
    committed: &mut DirectSendReservations,
    acknowledged: &mut DirectSendReservations,
    lease_id: Uuid,
    submission_id: Uuid,
    expected: String,
    replacement: String,
    thread_id: Option<String>,
    epoch: u64,
    outcome: SubmissionDispatchOutcome,
    submission: NativeComposerSubmission,
    kept_result: WireResult,
    ready: Result<DirectPreparedSubmission, WireResult>,
    finished_result: WireResult,
    correction: ReplaceOutcome,
    acknowledged_result: WireResult,
)
    requires
        call_ensures(DirectSendReservations::keep, (kept, lease_id), kept_result),
        call_ensures(
            DirectSendReservations::prepare_submission,
            (prepared, lease_id, expected, &thread_id, epoch),
            ready,
        ),
        call_ensures(
            DirectSendReservations::finish_submission,
            (finished, lease_id, submission_id, outcome),
            finished_result,
        ),
        call_ensures(
            DirectSendReservations::replace,
            (replaced, lease_id, expected, replacement),
            correction,
        ),
        call_ensures(DirectSendReservations::note_submission_committed, (committed, &submission), ()),
        call_ensures(
            DirectSendReservations::acknowledge_unknown,
            (acknowledged, lease_id),
            acknowledged_result,
        ),
    ensures
        final(kept).unknown_acknowledged@ == old(kept).unknown_acknowledged@,
        final(prepared).unknown_acknowledged@ == old(prepared).unknown_acknowledged@,
        final(finished).unknown_acknowledged@ == old(finished).unknown_acknowledged@,
        final(finished).kept@ == old(finished).kept@,
        final(replaced).unknown_acknowledged@ == old(replaced).unknown_acknowledged@,
        final(replaced).kept@ == old(replaced).kept@,
        final(committed).unknown_acknowledged@ == old(committed).unknown_acknowledged@,
        final(acknowledged).kept@ == old(acknowledged).kept@,
{
}

} // verus!
