//! What holds across composer-free sends, dispatches, and submissions on their way.
use crate::digest::text_digest;
use crate::direct_send::{
    released_by_rollback, rolled_back_logs, rolled_entries, terminal_reservation, with_room, DirectPreparedSubmission,
    DirectSendReservation, DirectSendReservations, DirectSendState, MAX_DIRECT_SEND_RESERVATIONS,
};
use crate::dispatch::{NativeDispatch, OpCall, OpReply, OpStep, ThreadOp, TurnReply};
use crate::fence::SubmitFence;
use crate::ids::{simple_text, simple_text_injective, Uuid};
use crate::ledger::{
    distinct, dropped_are, dropped_ids, filed, first_where, first_where_meets, holds, index_is, index_of, refiled,
    refiled_keeps_others, retained, retained_are, same_places, without, without_keeps_others,
};
use crate::pending::{
    end_told, examined, noted_committed, stays, submissions_of, verdict, NotifiedOutcome,
    PendingComposerSubmissionCommit, PendingQuestion, TransitionView,
};
use crate::receipt::{
    CorrectionDispatchOutcome, CorrectionProposal, PreparedCorrection, ReplaceOutcome,
    SubmissionDispatchOutcome,
};
use crate::routing::App;
use crate::submission::{client_message_id, receipt_key, receipt_value, SubmissionView};
use crate::target::text_view;
use crate::turn::{carries, starts, NewTurn, TurnConfig, TurnMessage, UserTurn};
use crate::wire::{refused, ErrorCode, WireResult};
use vstd::prelude::*;
use vstd::string::*;

verus! {

/// The reservation is held, and was never submitted.
pub open spec fn unspent(table: DirectSendReservations, id: Uuid) -> bool {
    table.reserved(id) && table.reservation(id).state is Reserved
}

/// No reservation goes back to never having been submitted, and none appears, unless `renewed` is
/// the identifier of one that was made anew.
pub open spec fn spent_stays_spent(
    before: DirectSendReservations,
    after: DirectSendReservations,
    renewed: Option<Uuid>,
) -> bool {
    forall|id: Uuid|
        Some(id) != renewed && #[trigger] unspent(after, id) ==> unspent(before, id)
}

/// Only a reservation that was never submitted, in the thread and the chronology that it was made
/// for, is dispatched; after that it is spent.
pub proof fn a_reservation_is_dispatched_at_most_once(
    state: DirectSendReservations,
    after: DirectSendReservations,
    lease_id: Uuid,
    expected: String,
    thread_id: Option<Seq<char>>,
    epoch: u64,
    prepared: Result<DirectPreparedSubmission, WireResult>,
)
    requires
        state.well_formed(),
        state.submit_step(after, lease_id, expected, thread_id, epoch, prepared),
    ensures
        prepared is Ok ==> {
            &&& state.reserved(lease_id)
            &&& state.reservation(lease_id).state is Reserved
            &&& state.reservation(lease_id).is_current(thread_id, epoch)
            &&& after.reserved(lease_id)
            &&& !(after.reservation(lease_id).state is Reserved)
        },
        spent_stays_spent(state, after, None),
{
    if state.reserved(lease_id) {
        let entries = state.reservations.entries@;
        let reservation = state.reservation(lease_id);
        let latched = reservation.latched(text_digest(expected@));
        refiled_keeps_others(entries, lease_id, latched);
        refiled_keeps_others(entries, lease_id, latched.in_state(after.reservation(lease_id).state));
        refiled_keeps_others(
            entries,
            lease_id,
            latched.in_state(
                DirectSendState::Resolved {
                    result: refused(ErrorCode::ReservationChanged),
                    sent: None,
                },
            ),
        );
    }
}

/// The first submit of a reservation latches its content: another text is refused from then on,
/// and changes nothing.
pub proof fn content_is_latched(
    state: DirectSendReservations,
    submitted: DirectSendReservations,
    after: DirectSendReservations,
    lease_id: Uuid,
    expected: String,
    other: String,
    thread_id: Option<Seq<char>>,
    later_thread_id: Option<Seq<char>>,
    epoch: u64,
    later_epoch: u64,
    prepared: Result<DirectPreparedSubmission, WireResult>,
    again: Result<DirectPreparedSubmission, WireResult>,
)
    requires
        state.well_formed(),
        state.reserved(lease_id),
        state.reservation(lease_id).admits(text_digest(expected@)),
        state.submit_step(submitted, lease_id, expected, thread_id, epoch, prepared),
        text_digest(other@) != text_digest(expected@),
        submitted.submit_step(after, lease_id, other, later_thread_id, later_epoch, again),
    ensures
        again == Err::<DirectPreparedSubmission, _>(refused(ErrorCode::ExpectedMismatch)),
        submitted.unchanged(after),
{
    let entries = state.reservations.entries@;
    let latched = state.reservation(lease_id).latched(text_digest(expected@));
    refiled_keeps_others(entries, lease_id, latched);
    refiled_keeps_others(
        entries,
        lease_id,
        latched.in_state(submitted.reservation(lease_id).state),
    );
    refiled_keeps_others(
        entries,
        lease_id,
        latched.in_state(
            DirectSendState::Resolved {
                result: refused(ErrorCode::ReservationChanged),
                sent: None,
            },
        ),
    );
}

/// `after` follows from `before` by something that is asked of a reservation, or that becomes of
/// its message.
pub open spec fn is_direct_step(
    before: DirectSendReservations,
    after: DirectSendReservations,
) -> bool {
    ||| exists|id: Uuid, sent: Uuid, outcome: SubmissionDispatchOutcome, result: WireResult|
        #[trigger] before.finish_submission_step(after, id, sent, outcome, result)
    ||| exists|id: Uuid, result: WireResult| #[trigger] before.keep_step(after, id, result)
    ||| exists|id: Uuid, result: WireResult| #[trigger] before.acknowledge_step(after, id, result)
    ||| exists|id: Uuid, expected: String, replacement: String, outcome: ReplaceOutcome|
        #[trigger] before.replace_step(after, id, expected, replacement, outcome)
    ||| exists|proposal: CorrectionProposal, truncated: bool, outcome: ReplaceOutcome|
        #[trigger] before.admit_step(after, proposal, truncated, outcome)
    ||| exists|id: Uuid, correction: Uuid, outcome: CorrectionDispatchOutcome, result: WireResult|
        #[trigger] before.finish_correction_step(after, id, correction, outcome, result)
    ||| exists|submission: SubmissionView| #[trigger] before.pending_step(after, submission)
    ||| exists|submission: SubmissionView| #[trigger] before.committed_step(after, submission)
    ||| exists|submission: SubmissionView| #[trigger] before.abandoned_step(after, submission)
}

/// `after` is `before` but for one held reservation, which is gone, or is spent where it was.
spec fn is_one_change(
    before: DirectSendReservations,
    after: DirectSendReservations,
    id: Uuid,
) -> bool {
    let entries = before.reservations.entries@;
    ||| after.reservations.entries@ == entries
    ||| after.reservations.entries@ == without(entries, id)
    ||| exists|next: DirectSendReservation|
        after.reservations.entries@ == #[trigger] refiled(entries, id, next) && holds(entries, id)
            && (next.state is Reserved ==> filed(entries, id).state is Reserved)
}

proof fn one_change_keeps_spent(
    before: DirectSendReservations,
    after: DirectSendReservations,
    id: Uuid,
)
    requires
        before.well_formed(),
        is_one_change(before, after, id),
    ensures
        spent_stays_spent(before, after, None),
{
    let entries = before.reservations.entries@;
    without_keeps_others(entries, id);
    if after.reservations.entries@ != entries && after.reservations.entries@ != without(
        entries,
        id,
    ) {
        let next = choose|next: DirectSendReservation|
            after.reservations.entries@ == #[trigger] refiled(entries, id, next) && holds(
                entries,
                id,
            ) && (next.state is Reserved ==> filed(entries, id).state is Reserved);
        refiled_keeps_others(entries, id, next);
    }
}

/// Nothing that is asked of a reservation, or that becomes of its message, makes it one that was
/// never submitted.
pub proof fn direct_steps_keep_spent(
    before: DirectSendReservations,
    after: DirectSendReservations,
)
    requires
        before.well_formed(),
        is_direct_step(before, after),
    ensures
        spent_stays_spent(before, after, None),
{
    if exists|id: Uuid, sent: Uuid, outcome: SubmissionDispatchOutcome, result: WireResult|
        #[trigger] before.finish_submission_step(after, id, sent, outcome, result) {
        let (id, sent, outcome, result) = choose|
            id: Uuid,
            sent: Uuid,
            outcome: SubmissionDispatchOutcome,
            result: WireResult,
        | #[trigger] before.finish_submission_step(after, id, sent, outcome, result);
        assert(is_one_change(before, after, id));
        one_change_keeps_spent(before, after, id);
    } else if exists|id: Uuid, result: WireResult| #[trigger] before.keep_step(after, id, result) {
        let (id, result) = choose|id: Uuid, result: WireResult| #[trigger]
            before.keep_step(after, id, result);
        assert(is_one_change(before, after, id));
        one_change_keeps_spent(before, after, id);
    } else if exists|id: Uuid, result: WireResult| #[trigger]
        before.acknowledge_step(after, id, result) {
        let (id, result) = choose|id: Uuid, result: WireResult| #[trigger]
            before.acknowledge_step(after, id, result);
        assert(is_one_change(before, after, id));
        one_change_keeps_spent(before, after, id);
    } else if exists|id: Uuid, expected: String, replacement: String, outcome: ReplaceOutcome|
        #[trigger] before.replace_step(after, id, expected, replacement, outcome) {
        let (id, expected, replacement, outcome) = choose|
            id: Uuid,
            expected: String,
            replacement: String,
            outcome: ReplaceOutcome,
        | #[trigger] before.replace_step(after, id, expected, replacement, outcome);
        assert(is_one_change(before, after, id));
        one_change_keeps_spent(before, after, id);
    } else if exists|proposal: CorrectionProposal, truncated: bool, outcome: ReplaceOutcome|
        #[trigger] before.admit_step(after, proposal, truncated, outcome) {
        let (proposal, truncated, outcome) = choose|
            proposal: CorrectionProposal,
            truncated: bool,
            outcome: ReplaceOutcome,
        | #[trigger] before.admit_step(after, proposal, truncated, outcome);
        assert(is_one_change(before, after, proposal.lease_id));
        one_change_keeps_spent(before, after, proposal.lease_id);
    } else if exists|
        id: Uuid,
        correction: Uuid,
        outcome: CorrectionDispatchOutcome,
        result: WireResult,
    | #[trigger] before.finish_correction_step(after, id, correction, outcome, result) {
        let (id, correction, outcome, result) = choose|
            id: Uuid,
            correction: Uuid,
            outcome: CorrectionDispatchOutcome,
            result: WireResult,
        | #[trigger] before.finish_correction_step(after, id, correction, outcome, result);
        assert(is_one_change(before, after, id));
        one_change_keeps_spent(before, after, id);
    } else if exists|submission: SubmissionView| #[trigger]
        before.pending_step(after, submission) {
        let submission = choose|submission: SubmissionView| #[trigger]
            before.pending_step(after, submission);
        let id = match submission.direct_lease_id {
            Some(id) => id,
            None => 0,
        };
        assert(is_one_change(before, after, id));
        one_change_keeps_spent(before, after, id);
    } else if exists|submission: SubmissionView| #[trigger]
        before.committed_step(after, submission) {
        let submission = choose|submission: SubmissionView| #[trigger]
            before.committed_step(after, submission);
        let id = match submission.direct_lease_id {
            Some(id) => id,
            None => 0,
        };
        assert(is_one_change(before, after, id));
        one_change_keeps_spent(before, after, id);
    } else {
        let submission = choose|submission: SubmissionView| #[trigger]
            before.abandoned_step(after, submission);
        let id = match submission.direct_lease_id {
            Some(id) => id,
            None => 0,
        };
        assert(is_one_change(before, after, id));
        one_change_keeps_spent(before, after, id);
    }
}

/// Making room drops reservations whole and leaves the others filed as they were.
proof fn room_keeps_others(entries: Seq<(Uuid, DirectSendReservation)>)
    requires
        distinct(entries),
    ensures
        distinct(with_room(entries)),
        forall|id: Uuid| #[trigger]
            holds(with_room(entries), id) ==> holds(entries, id) && filed(with_room(entries), id)
                == filed(entries, id),
    decreases entries.len(),
{
    let oldest = first_where(entries, terminal_reservation(), 0) as int;
    if entries.len() >= MAX_DIRECT_SEND_RESERVATIONS && oldest < entries.len() {
        first_where_meets(entries, terminal_reservation(), 0);
        index_is(entries, oldest);
        let id = entries[oldest].0;
        without_keeps_others(entries, id);
        let rest = entries.remove(oldest);
        assert(rest == without(entries, id));
        room_keeps_others(rest);
        assert forall|other: Uuid| #[trigger] holds(with_room(entries), other) implies holds(
            entries,
            other,
        ) && filed(with_room(entries), other) == filed(entries, other) by {
            assert(holds(rest, other));
            assert(other != id);
        }
    }
}

/// To acquire a send makes no reservation that is held one that was never submitted, but for the
/// new one.
pub proof fn acquiring_keeps_spent(
    before: DirectSendReservations,
    after: DirectSendReservations,
    thread_id: Seq<char>,
    epoch: u64,
    result: WireResult,
)
    requires
        before.well_formed(),
        before.acquire_step(after, thread_id, epoch, result),
    ensures
        spent_stays_spent(
            before,
            after,
            match result {
                WireResult::Reserved { lease_id } => Some(lease_id),
                _ => None,
            },
        ),
{
    let room = with_room(before.reservations.entries@);
    room_keeps_others(before.reservations.entries@);
    if let WireResult::Reserved { lease_id } = result {
        let now = after.reservations.entries@;
        assert(now =~= room.push(now.last()));
        assert forall|i: int, j: int| 0 <= i < j < now.len() implies (#[trigger] now[i]).0 != (
        #[trigger] now[j]).0 by {
            assert(room[i].0 == now[i].0);
            if j < room.len() {
                assert(room[j].0 == now[j].0);
            }
        }
        assert forall|id: Uuid| id != lease_id && #[trigger] unspent(after, id) implies unspent(
            before,
            id,
        ) by {
            let at = index_of(now, id);
            assert(room[at] == now[at]);
            index_is(room, at);
            assert(holds(room, id));
        }
    }
}

/// A rollback makes no reservation one that was never submitted.
pub proof fn rollbacks_keep_spent(
    before: DirectSendReservations,
    after: DirectSendReservations,
    thread_id: Seq<char>,
    surviving: Seq<Uuid>,
)
    requires
        before.well_formed(),
        before.rollback_step(after, thread_id, surviving),
    ensures
        spent_stays_spent(before, after, None),
{
    let entries = before.reservations.entries@;
    let rolled = rolled_entries(entries, thread_id, surviving);
    let released = released_by_rollback(thread_id);
    let left = retained(rolled, released);
    same_places(entries, rolled);
    retained_are(rolled, released);
    assert forall|id: Uuid| #[trigger] unspent(after, id) implies unspent(before, id) by {
        let at = index_of(left, id);
        assert(rolled.contains(left[at]));
        let from = choose|k: int| 0 <= k < rolled.len() && rolled[k] == left[at];
        index_is(rolled, from);
        assert(holds(rolled, id));
    }
}

/// A reservation that a rollback lets go is answered as kept from then on.
pub proof fn a_reservation_released_by_rollback_is_kept(
    before: DirectSendReservations,
    rolled: DirectSendReservations,
    after: DirectSendReservations,
    thread_id: Seq<char>,
    surviving: Seq<Uuid>,
    lease_id: Uuid,
    result: WireResult,
)
    requires
        before.well_formed(),
        before.rollback_step(rolled, thread_id, surviving),
        before.reserved(lease_id),
        !rolled.reserved(lease_id),
        rolled.keep_step(after, lease_id, result),
    ensures
        result == WireResult::Kept,
        rolled.unchanged(after),
{
    let entries = rolled_entries(before.reservations.entries@, thread_id, surviving);
    let released = released_by_rollback(thread_id);
    same_places(before.reservations.entries@, entries);
    assert forall|id: Uuid| #[trigger] holds(entries, id) implies !before.kept@.contains(id) by {
        assert(holds(before.reservations.entries@, id));
    }
    rolled_back_logs(before.kept@, entries, released);
    dropped_are(entries, released);
    retained_are(entries, released);
    let at = index_of(entries, lease_id);
    assert(holds(entries, lease_id));
    if !released(entries[at].1) {
        let left = retained(entries, released);
        assert(left.contains(entries[at]));
        let k = choose|k: int| 0 <= k < left.len() && left[k] == entries[at];
        assert(left[k].0 == lease_id);
    }
    assert(dropped_ids(entries, released).contains(lease_id));
}

/// A rollback of a thread leaves the reservations of others as they were, and no message of the
/// thread in doubt: it survived, or is abandoned.
pub proof fn a_rollback_settles_reservations(
    entries: Seq<(Uuid, DirectSendReservation)>,
    thread_id: Seq<char>,
    surviving: Seq<Uuid>,
)
    requires
        distinct(entries),
    ensures
        ({
            let rolled = rolled_entries(entries, thread_id, surviving);
            let left = retained(rolled, released_by_rollback(thread_id));
            &&& forall|i: int|
                0 <= i < entries.len() && (#[trigger] entries[i]).1.thread_id@ != thread_id
                    ==> left.contains(entries[i])
            &&& forall|i: int|
                0 <= i < left.len() && (#[trigger] left[i]).1.thread_id@ != thread_id
                    ==> entries.contains(left[i])
            &&& forall|i: int|
                0 <= i < left.len() && (#[trigger] left[i]).1.thread_id@ == thread_id ==> !(
                left[i].1.state is Dispatching) && !(left[i].1.state is SubmissionPending)
        }),
{
    let rolled = rolled_entries(entries, thread_id, surviving);
    let released = released_by_rollback(thread_id);
    let left = retained(rolled, released);
    retained_are(rolled, released);
    assert forall|i: int|
        0 <= i < entries.len() && (#[trigger] entries[i]).1.thread_id@
            != thread_id implies left.contains(entries[i]) by {
        assert(rolled[i] == entries[i]);
        assert(!released(rolled[i].1));
    }
    assert forall|i: int|
        0 <= i < left.len() && (#[trigger] left[i]).1.thread_id@
            != thread_id implies entries.contains(left[i]) by {
        assert(rolled.contains(left[i]));
        let k = choose|k: int| 0 <= k < rolled.len() && rolled[k] == left[i];
        assert(rolled[k].1.thread_id == entries[k].1.thread_id);
        assert(entries[k] == left[i]);
    }
    assert forall|i: int|
        0 <= i < left.len() && (#[trigger] left[i]).1.thread_id@ == thread_id implies !(
    left[i].1.state is Dispatching) && !(left[i].1.state is SubmissionPending) by {
        assert(rolled.contains(left[i]));
        let k = choose|k: int| 0 <= k < rolled.len() && rolled[k] == left[i];
        assert(rolled[k].1.thread_id == entries[k].1.thread_id);
    }
}

/// A correction of a sent message whose outcome is unknown keeps its identity: the same
/// replacement, asked for again, dispatches the very correction that was dispatched first.
pub proof fn a_direct_correction_is_retried_under_its_identity(
    state: DirectSendReservations,
    proposed: DirectSendReservations,
    admitted: DirectSendReservations,
    unsettled: DirectSendReservations,
    after: DirectSendReservations,
    lease_id: Uuid,
    expected: String,
    replacement: String,
    proposal: CorrectionProposal,
    correction: PreparedCorrection,
    unknown: WireResult,
    retried: ReplaceOutcome,
)
    requires
        state.well_formed(),
        state.replace_step(
            proposed,
            lease_id,
            expected,
            replacement,
            ReplaceOutcome::Propose(proposal),
        ),
        proposed.admit_step(admitted, proposal, false, ReplaceOutcome::Correct(correction)),
        admitted.finish_correction_step(
            unsettled,
            correction.lease_id,
            correction.correction_id,
            CorrectionDispatchOutcome::Unknown,
            unknown,
        ),
        unsettled.replace_step(after, lease_id, expected, replacement, retried),
    ensures
        unknown == WireResult::CorrectionPending,
        unsettled.unchanged(after),
        retried matches ReplaceOutcome::Correct(again) && again.lease_id == correction.lease_id
            && again.origin == correction.origin && again.thread_id@ == correction.thread_id@
            && again.correction_id == correction.correction_id
            && again.expected_client_user_message_id@
            == correction.expected_client_user_message_id@ && again.payload@
            == correction.payload@,
{
    let next = proposed.reservation(lease_id).in_state(
        DirectSendState::CorrectionPending {
            receipt: proposal.receipt,
            correction_id: proposal.correction_id,
            expected: proposal.expected,
            replacement: proposal.replacement,
            payload: proposal.drafts@.last(),
        },
    );
    assert(proposed.reservations.entries@ == state.reservations.entries@);
    refiled_keeps_others(proposed.reservations.entries@, lease_id, next);
}

/// How many requests the dispatch of a native submission can still make.
pub open spec fn requests_left(dispatch: NativeDispatch) -> nat {
    match dispatch {
        NativeDispatch::Steer { retried, .. } => if retried {
            2
        } else {
            3
        },
        NativeDispatch::Start { .. } => 1,
        _ => 0,
    }
}

/// The reply answers the request that was made.
pub open spec fn answers(dispatch: NativeDispatch, reply: TurnReply) -> bool {
    match dispatch {
        NativeDispatch::Steer { .. } => !(reply is StartFailed),
        NativeDispatch::Start { .. } => !(reply is SteerFailed),
        _ => false,
    }
}

/// Each reply brings the dispatch of a native submission nearer to its end: a message is steered
/// at most twice, and started at most once.
pub proof fn a_native_dispatch_ends(
    app: App,
    after: App,
    thread_id: Seq<char>,
    turn: UserTurn,
    dispatch: NativeDispatch,
    reply: TurnReply,
    next: NativeDispatch,
)
    requires
        answers(dispatch, reply),
        app.native_dispatch_step(after, thread_id, turn, dispatch, reply, next),
    ensures
        requests_left(next) < requests_left(dispatch),
{
}

/// Whatever is sent of a turn, in a steer, in another one or in a new turn, is sent under the same
/// client identity, with the same receipt and the same items.
pub proof fn a_turn_is_sent_under_one_identity(
    turn: UserTurn,
    config: TurnConfig,
    steered: TurnMessage,
    started: NewTurn,
)
    requires
        carries(steered, turn),
        starts(started, turn, config),
    ensures
        steered.items@ == started.message.items@,
        text_view(steered.client_user_message_id) == text_view(
            started.message.client_user_message_id,
        ),
        match (steered.composer_receipt, started.message.composer_receipt) {
            (Some((key, value)), Some((other_key, other_value))) => key@ == other_key@ && value@
                == other_value@,
            (None, None) => true,
            _ => false,
        },
        turn.composer_submission is Some ==> text_view(steered.client_user_message_id) == Some(
            client_message_id(turn.composer_submission->0.submission_id),
        ),
{
}

/// How many requests an operation can still make, with this one.
pub open spec fn calls_left(step: OpStep) -> nat {
    match step {
        OpStep::End(_) => 0,
        OpStep::Call(OpCall::TurnSteer { retried, .. }) => if retried {
            2
        } else {
            3
        },
        OpStep::Call(OpCall::TurnInterrupt { retried, .. }) => if retried {
            1
        } else {
            2
        },
        OpStep::Call(_) => 1,
    }
}

/// Each reply brings an operation nearer to its end: a turn is interrupted at most twice, and a
/// message is steered at most twice and started at most once.
pub proof fn an_operation_ends(
    app: App,
    after: App,
    thread_id: Seq<char>,
    op: ThreadOp,
    call: OpCall,
    reply: OpReply,
    step: OpStep,
)
    requires
        app.op_step(after, thread_id, op, call, reply, step),
    ensures
        calls_left(step) < calls_left(OpStep::Call(call)),
{
}

/// A look at pending submissions that it does not concern leaves them pending as they were.
proof fn unconcerned_stay(
    question: PendingQuestion,
    shown: Option<String>,
    fences: Seq<SubmitFence>,
    entries: Seq<(Uuid, PendingComposerSubmissionCommit)>,
    at: int,
)
    requires
        0 <= at < entries.len(),
        verdict(question, shown, fences, entries[at].1) is Wait,
    ensures
        examined(question, shown, fences, entries).pending.contains(entries[at]),
    decreases entries.len(),
{
    let earlier = examined(question, shown, fences, entries.drop_last()).pending;
    let now = examined(question, shown, fences, entries).pending;
    if at < entries.len() - 1 {
        unconcerned_stay(question, shown, fences, entries.drop_last(), at);
        let k = choose|k: int| 0 <= k < earlier.len() && earlier[k] == entries[at];
        assert(now[k] == entries[at]);
    } else {
        assert(now[now.len() - 1] == entries[at]);
    }
}

/// What stays pending after a look was pending before, and the look did not end it.
proof fn stayed_was_not_ended(
    question: PendingQuestion,
    shown: Option<String>,
    fences: Seq<SubmitFence>,
    entries: Seq<(Uuid, PendingComposerSubmissionCommit)>,
    i: int,
) -> (k: int)
    requires
        0 <= i < examined(question, shown, fences, entries).pending.len(),
    ensures
        0 <= k < entries.len(),
        stays(verdict(question, shown, fences, entries[k].1)),
        examined(question, shown, fences, entries).pending[i] == entries[k],
    decreases entries.len(),
{
    let earlier = examined(question, shown, fences, entries.drop_last()).pending;
    if i < earlier.len() {
        stayed_was_not_ended(question, shown, fences, entries.drop_last(), i)
    } else {
        entries.len() - 1
    }
}

/// What a rollback does with a pending submission leaves the others as they were. The submission
/// itself stays only with its message in model history, and is told of as handed over first and
/// then as committed, or as abandoned, where it does not stay.
pub proof fn a_rollback_settles_pending_submissions(
    app: App,
    after: App,
    submission_id: Uuid,
    surviving_client_ids: Seq<String>,
    fences: Seq<SubmitFence>,
    outcome: NotifiedOutcome,
)
    requires
        app.well_formed(),
        app.roll_back_step(after, submission_id, surviving_client_ids, fences, outcome),
    ensures
        forall|other: Uuid| #![trigger holds(after.pending(), other)]
            other != submission_id ==> holds(after.pending(), other) == holds(app.pending(), other)
                && (holds(app.pending(), other) ==> filed(after.pending(), other) == filed(
                app.pending(),
                other,
            )),
        holds(after.pending(), submission_id) ==> filed(
            after.pending(),
            submission_id,
        ).item_committed,
        holds(app.pending(), submission_id) && !holds(after.pending(), submission_id) ==> ({
            let submission = filed(app.pending(), submission_id).submission@;
            let told = after.transitions();
            ||| told == app.transitions().push(TransitionView::Abandoned(submission))
            ||| told == app.transitions().push(TransitionView::Pending(submission)).push(
                TransitionView::Committed(submission),
            )
        }),
{
    let entries = app.pending();
    if holds(entries, submission_id) {
        let pending = filed(entries, submission_id);
        without_keeps_others(entries, submission_id);
        refiled_keeps_others(entries, submission_id, noted_committed(pending));
        assert(entries.remove(index_of(entries, submission_id)) == without(entries, submission_id));
        let handed_over = app.transitions().push(TransitionView::Pending(pending.submission@));
        assert(handed_over + seq![TransitionView::Committed(pending.submission@)]
            =~= handed_over.push(TransitionView::Committed(pending.submission@)));
    }
}

/// A rollback looks at every pending submission of its thread, and at no other.
pub proof fn a_rollback_looks_at_its_thread(
    entries: Seq<(Uuid, PendingComposerSubmissionCommit)>,
    thread_id: Seq<char>,
    id: Uuid,
)
    requires
        distinct(entries),
    ensures
        submissions_of(entries, thread_id).contains(id) == (holds(entries, id) && filed(
            entries,
            id,
        ).submission.thread_id@ == thread_id),
    decreases entries.len(),
{
    if entries.len() > 0 {
        let shorter = entries.drop_last();
        let last = entries.len() - 1;
        assert forall|i: int, j: int| 0 <= i < j < shorter.len() implies (
        #[trigger] shorter[i]).0 != (#[trigger] shorter[j]).0 by {
            assert(entries[i].0 != entries[j].0);
        }
        a_rollback_looks_at_its_thread(shorter, thread_id, id);
        let earlier = submissions_of(shorter, thread_id);
        let now = submissions_of(entries, thread_id);
        index_is(entries, last);
        if holds(shorter, id) {
            let at = index_of(shorter, id);
            assert(entries[at] == shorter[at]);
            index_is(entries, at);
        }
        if holds(entries, id) {
            let at = index_of(entries, id);
            if at < last {
                assert(shorter[at] == entries[at]);
                index_is(shorter, at);
            }
        }
        if earlier.contains(id) {
            let k = choose|k: int| 0 <= k < earlier.len() && earlier[k] == id;
            assert(now[k] == id);
        }
        if now.contains(id) {
            let k = choose|k: int| 0 <= k < now.len() && now[k] == id;
            if k < earlier.len() {
                assert(earlier[k] == id);
            }
        }
        if entries[last].0 == id && entries[last].1.submission.thread_id@ == thread_id {
            assert(now[now.len() - 1] == id);
        }
    }
}

/// The end of a turn concerns the pending submissions of that turn alone, and leaves none of them
/// whose message is not in model history.
pub proof fn the_end_of_a_turn_settles_its_submissions(
    thread_id: String,
    turn_id: String,
    shown: Option<String>,
    fences: Seq<SubmitFence>,
    entries: Seq<(Uuid, PendingComposerSubmissionCommit)>,
)
    ensures
        ({
            let question = PendingQuestion::TurnEnded { thread_id, turn_id };
            let left = examined(question, shown, fences, entries).pending;
            &&& forall|i: int|
                0 <= i < entries.len() && ((#[trigger] entries[i]).1.submission.thread_id@
                    != thread_id@ || entries[i].1.turn_id is None || entries[i].1.turn_id->0@
                    != turn_id@ || entries[i].1.item_committed) ==> left.contains(entries[i])
            &&& forall|i: int|
                0 <= i < left.len() && (#[trigger] left[i]).1.submission.thread_id@ == thread_id@
                    && left[i].1.turn_id is Some && left[i].1.turn_id->0@ == turn_id@
                    ==> left[i].1.item_committed
        }),
{
    let question = PendingQuestion::TurnEnded { thread_id, turn_id };
    let left = examined(question, shown, fences, entries).pending;
    assert forall|i: int|
        0 <= i < entries.len() && ((#[trigger] entries[i]).1.submission.thread_id@ != thread_id@
            || entries[i].1.turn_id is None || entries[i].1.turn_id->0@ != turn_id@
            || entries[i].1.item_committed) implies left.contains(entries[i]) by {
        unconcerned_stay(question, shown, fences, entries, i);
    }
    assert forall|i: int|
        0 <= i < left.len() && (#[trigger] left[i]).1.submission.thread_id@ == thread_id@
            && left[i].1.turn_id is Some && left[i].1.turn_id->0@
            == turn_id@ implies left[i].1.item_committed by {
        let k = stayed_was_not_ended(question, shown, fences, entries, i);
        assert(entries[k].1.submission == left[i].1.submission);
    }
}

/// A submission that a look ends is told of as committed or abandoned.
pub proof fn ended_submissions_are_told_of(
    question: PendingQuestion,
    shown: Option<String>,
    fences: Seq<SubmitFence>,
    entries: Seq<(Uuid, PendingComposerSubmissionCommit)>,
    at: int,
)
    requires
        0 <= at < entries.len(),
    ensures
        ({
            let end = verdict(question, shown, fences, entries[at].1);
            let told = examined(question, shown, fences, entries).transitions;
            let submission = entries[at].1.submission@;
            &&& end is Commit ==> told.contains(TransitionView::Committed(submission))
            &&& end is Abandon ==> told.contains(TransitionView::Abandoned(submission))
        }),
    decreases entries.len(),
{
    let shorter = entries.drop_last();
    let earlier = examined(question, shown, fences, shorter).transitions;
    let told = examined(question, shown, fences, entries).transitions;
    let submission = entries[at].1.submission@;
    let end = verdict(question, shown, fences, entries[at].1);
    if at < entries.len() - 1 {
        ended_submissions_are_told_of(question, shown, fences, shorter, at);
        if earlier.contains(TransitionView::Committed(submission)) {
            let k = choose|k: int|
                0 <= k < earlier.len() && earlier[k] == TransitionView::Committed(submission);
            assert(told[k] == earlier[k]);
        }
        if earlier.contains(TransitionView::Abandoned(submission)) {
            let k = choose|k: int|
                0 <= k < earlier.len() && earlier[k] == TransitionView::Abandoned(submission);
            assert(told[k] == earlier[k]);
        }
    } else {
        let last = end_told(end, submission);
        assert(told == earlier + last);
        if last.len() > 0 {
            assert(told[told.len() - 1] == last[last.len() - 1]);
        }
    }
}

/// The character is safe in a name of the application context.
pub open spec fn is_key_char(c: char) -> bool {
    'a' <= c <= 'z' || '0' <= c <= '9' || c == '_'
}

/// The key of a receipt holds only lower-case letters, digits and underscores, so that it stands
/// in markup as it is.
pub proof fn receipt_keys_are_safe(id: Uuid)
    ensures
        forall|i: int| 0 <= i < receipt_key(id).len() ==> is_key_char(#[trigger] receipt_key(id)[i]),
{
    reveal_strlit("koenig_transcription_receipt_");
    let prefix = "koenig_transcription_receipt_"@;
    let key = receipt_key(id);
    assert(forall|i: int| 0 <= i < prefix.len() ==> is_key_char(#[trigger] prefix[i]));
    assert forall|i: int| 0 <= i < key.len() implies is_key_char(#[trigger] key[i]) by {
        if i < prefix.len() {
            assert(key[i] == prefix[i]);
        } else {
            assert(key[i] == simple_text(id)[i - prefix.len()]);
        }
    }
}

/// Two submissions never share a receipt.
pub proof fn receipt_keys_are_distinct(a: Uuid, b: Uuid)
    requires
        receipt_key(a) == receipt_key(b),
    ensures
        a == b,
{
    let prefix = "koenig_transcription_receipt_"@;
    assert(receipt_key(a).skip(prefix.len() as int) =~= simple_text(a));
    assert(receipt_key(b).skip(prefix.len() as int) =~= simple_text(b));
    simple_text_injective(a, b);
}

/// A receipt names the message that follows it.
pub proof fn receipts_name_their_message(id: Uuid)
    ensures
        exists|start: int|
            0 <= start <= receipt_value(id).len() - client_message_id(id).len()
                && #[trigger] receipt_value(id).subrange(
                start,
                start + client_message_id(id).len(),
            ) == client_message_id(id),
{
    let start = "Koenig submission receipt "@.len() as int;
    assert(receipt_value(id).subrange(start, start + client_message_id(id).len())
        =~= client_message_id(id));
}

} // verus!
