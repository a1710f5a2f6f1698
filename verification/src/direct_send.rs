//! Bounded lifecycle for composer-free Koenig sends.
//!
//! A reservation binds one process-local lease to the active thread and user-chronology epoch.
//! Its first submit latches exact content and a receiver-generated client user-message identity.
//! No state in this module mutates or previews the visible composer.
use crate::correction::mechanical_correction_context;
use crate::digest::{text_digest, text_hash, TextDigest};
use crate::hunks::cannot_spell;
use crate::ids::{is_version_4, lists, random_uuid, unused_id, Uuid};
use crate::ledger::{
    distinct, dropped_are, dropped_ids, filed, first_where, first_where_is, holds, index_is, index_of, keys,
    keys_are_held, note_retired, noted, noted_all, noted_all_are, refiled, refiled_keeps_others, retained,
    retained_are, same_places, without, without_keeps_others, Ledger,
};
use crate::receipt::{
    direct_receipt, is_whole_receipt, CorrectionDispatchOutcome, CorrectionOrigin,
    CorrectionProposal, PreparedCorrection, ReplaceOutcome, SubmissionDispatchOutcome,
    SubmittedLeaseReceipt,
};
use crate::submission::{
    client_message_id, client_message_id_of, NativeComposerSubmission, SubmissionView,
};
use crate::target::text_view;
use crate::text::{same_text, text_at_bytes, utf8};
use crate::wire::{refused, ErrorCode, MutationOutcome, WireResult};
use vstd::prelude::*;
use vstd::string::*;

verus! {

pub const MAX_DIRECT_SEND_RESERVATIONS: usize = 256;

pub const MAX_DIRECT_SEND_KEEP_TOMBSTONES: usize = 256;

pub const MAX_DIRECT_SEND_UNKNOWN_ACKNOWLEDGEMENT_TOMBSTONES: usize = 256;

/// Where a reservation stands.
pub enum DirectSendState {
    Reserved,
    /// A dispatch is under way; `receipt` owns the message that it sends.
    Dispatching { receipt: SubmittedLeaseReceipt },
    /// A dispatch ended, or was refused. `sent` owns the message that may have been sent.
    Resolved { result: WireResult, sent: Option<SubmittedLeaseReceipt> },
    SubmissionPending { receipt: SubmittedLeaseReceipt },
    SubmittedIntact { receipt: SubmittedLeaseReceipt },
    SubmissionAbandoned { receipt: SubmittedLeaseReceipt },
    CorrectionPending {
        receipt: SubmittedLeaseReceipt,
        correction_id: Uuid,
        expected: String,
        replacement: String,
        payload: String,
    },
}

/// One reservation.
pub struct DirectSendReservation {
    pub thread_id: String,
    pub user_chronology_epoch: u64,
    pub submission_id: Uuid,
    pub content_hash: Option<TextDigest>,
    pub release_on_settle: bool,
    pub state: DirectSendState,
}

/// Transcript-bearing direct submission ready for app-loop dispatch. It has no `Debug`.
pub struct DirectPreparedSubmission {
    pub reservation_id: Uuid,
    pub submission: NativeComposerSubmission,
    pub expected: String,
}

/// All reservations, and the reservations that were let go recently.
pub struct DirectSendReservations {
    pub reservations: Ledger<DirectSendReservation>,
    pub kept: Vec<Uuid>,
    pub unknown_acknowledged: Vec<Uuid>,
}

/// What a state answers to a request that it does not serve.
pub open spec fn state_answer(state: DirectSendState) -> WireResult {
    match state {
        DirectSendState::Reserved => refused(ErrorCode::SubmissionUnavailable),
        DirectSendState::Dispatching { .. } => WireResult::Unknown,
        DirectSendState::Resolved { result, .. } => result,
        DirectSendState::SubmissionPending { .. } => WireResult::SubmissionPending,
        DirectSendState::SubmittedIntact { .. } => WireResult::SubmittedIntact,
        DirectSendState::CorrectionPending { .. } => WireResult::SubmittedIntact,
        DirectSendState::SubmissionAbandoned { .. } => WireResult::SubmissionAbandoned,
    }
}

/// What a state answers to a request that it does not serve.
pub fn state_wire_result(state: &DirectSendState) -> (result: WireResult)
    ensures
        result == state_answer(*state),
{
    match state {
        DirectSendState::Reserved => WireResult::not_applied(ErrorCode::SubmissionUnavailable),
        DirectSendState::Dispatching { .. } => WireResult::Unknown,
        DirectSendState::Resolved { result, .. } => *result,
        DirectSendState::SubmissionPending { .. } => WireResult::SubmissionPending,
        DirectSendState::SubmittedIntact { .. } => WireResult::SubmittedIntact,
        DirectSendState::CorrectionPending { .. } => WireResult::SubmittedIntact,
        DirectSendState::SubmissionAbandoned { .. } => WireResult::SubmissionAbandoned,
    }
}

/// The refusal had no effect.
pub open spec fn had_no_effect(result: WireResult) -> bool {
    result matches WireResult::Error { outcome: MutationOutcome::NotApplied, .. }
}

/// The reservation can make room for another.
pub open spec fn is_terminal(state: DirectSendState) -> bool {
    match state {
        DirectSendState::SubmissionAbandoned { .. } => true,
        DirectSendState::Resolved { result, .. } => had_no_effect(result),
        _ => false,
    }
}

/// The reservation can make room for another.
pub open spec fn terminal_reservation() -> spec_fn(DirectSendReservation) -> bool {
    |reservation: DirectSendReservation| is_terminal(reservation.state)
}

/// `entries` with the oldest terminal reservations gone, while it is full and there are any.
pub open spec fn with_room(entries: Seq<(Uuid, DirectSendReservation)>) -> Seq<
    (Uuid, DirectSendReservation),
>
    decreases entries.len(),
{
    let oldest = first_where(entries, terminal_reservation(), 0);
    if entries.len() < MAX_DIRECT_SEND_RESERVATIONS || oldest >= entries.len() {
        entries
    } else {
        with_room(entries.remove(oldest as int))
    }
}

impl DirectSendReservations {
    /// No identifier is in use twice, a reservation that was let go is gone, and neither the
    /// reservations nor the logs outgrow their limits.
    pub open spec fn well_formed(self) -> bool {
        &&& distinct(self.reservations.entries@)
        &&& self.reservations.entries@.len() <= MAX_DIRECT_SEND_RESERVATIONS
        &&& self.kept@.no_duplicates()
        &&& self.kept@.len() <= MAX_DIRECT_SEND_KEEP_TOMBSTONES
        &&& self.unknown_acknowledged@.no_duplicates()
        &&& self.unknown_acknowledged@.len()
            <= MAX_DIRECT_SEND_UNKNOWN_ACKNOWLEDGEMENT_TOMBSTONES
        &&& forall|id: Uuid| #[trigger]
            holds(self.reservations.entries@, id) ==> !self.kept@.contains(id)
                && !self.unknown_acknowledged@.contains(id)
    }

    /// The reservation is held.
    pub open spec fn reserved(self, id: Uuid) -> bool {
        holds(self.reservations.entries@, id)
    }

    /// The reservation under `id`.
    pub open spec fn reservation(self, id: Uuid) -> DirectSendReservation {
        filed(self.reservations.entries@, id)
    }

    /// `after` differs from `self` in the reservation under `id` alone, which is `next`.
    pub open spec fn becomes(
        self,
        after: Self,
        id: Uuid,
        next: DirectSendReservation,
    ) -> bool {
        &&& after.reservations.entries@ == refiled(self.reservations.entries@, id, next)
        &&& after.kept == self.kept
        &&& after.unknown_acknowledged == self.unknown_acknowledged
    }

    /// `after` is `self` without the reservation under `id`, which is noted as kept.
    pub open spec fn lets_go(self, after: Self, id: Uuid) -> bool {
        &&& after.reservations.entries@ == without(self.reservations.entries@, id)
        &&& after.kept@ == noted(self.kept@, id, MAX_DIRECT_SEND_KEEP_TOMBSTONES as int)
        &&& after.unknown_acknowledged == self.unknown_acknowledged
    }

    pub fn new() -> (table: Self)
        ensures
            table.well_formed(),
            table.reservations.entries@.len() == 0,
            table.kept@.len() == 0,
            table.unknown_acknowledged@.len() == 0,
    {
        DirectSendReservations {
            reservations: Ledger::new(),
            kept: Vec::new(),
            unknown_acknowledged: Vec::new(),
        }
    }

    pub fn contains(&self, lease_id: Uuid) -> (found: bool)
        requires
            self.well_formed(),
        ensures
            found == self.reserved(lease_id),
    {
        self.reservations.contains_key(lease_id)
    }

    pub fn contains_keep_id(&self, lease_id: Uuid) -> (found: bool)
        requires
            self.well_formed(),
        ensures
            found == (self.reserved(lease_id) || self.kept@.contains(lease_id)),
    {
        self.reservations.contains_key(lease_id) || lists(&self.kept, lease_id)
    }

    pub fn contains_acknowledgement_id(&self, lease_id: Uuid) -> (found: bool)
        requires
            self.well_formed(),
        ensures
            found == (self.reserved(lease_id) || self.unknown_acknowledged@.contains(lease_id)),
    {
        self.reservations.contains_key(lease_id) || lists(&self.unknown_acknowledged, lease_id)
    }

    /// Makes room where the table is full and a reservation has come to its end.
    fn retire_terminal(&mut self)
        requires
            old(self).well_formed(),
        ensures
            final(self).well_formed(),
            final(self).reservations.entries@ == with_room(old(self).reservations.entries@),
            final(self).kept == old(self).kept,
            final(self).unknown_acknowledged == old(self).unknown_acknowledged,
    {
        while self.reservations.len() >= MAX_DIRECT_SEND_RESERVATIONS
            invariant
                self.well_formed(),
                with_room(self.reservations.entries@) == with_room(old(self).reservations.entries@),
                self.kept == old(self).kept,
                self.unknown_acknowledged == old(self).unknown_acknowledged,
            decreases self.reservations.entries@.len(),
        {
            let ghost entries = self.reservations.entries@;
            let mut i: usize = 0;
            while i < self.reservations.entries.len() && !terminal(
                &self.reservations.entries[i].1.state,
            )
                invariant
                    i <= self.reservations.entries@.len(),
                    entries == self.reservations.entries@,
                    forall|j: int| 0 <= j < i ==> !is_terminal((#[trigger] entries[j]).1.state),
                decreases self.reservations.entries@.len() - i,
            {
                i += 1;
            }
            proof {
                first_where_is(entries, terminal_reservation(), 0, i as nat);
            }
            if i >= self.reservations.entries.len() {
                return;
            }
            proof {
                index_is(entries, i as int);
                without_keeps_others(entries, entries[i as int].0);
            }
            let _retired = self.reservations.entries.remove(i);
        }
    }

    /// What `acquire` answers and changes.
    pub open spec fn acquire_step(
        self,
        after: Self,
        thread_id: Seq<char>,
        user_chronology_epoch: u64,
        result: WireResult,
    ) -> bool {
        &&& after.kept == self.kept
        &&& after.unknown_acknowledged == self.unknown_acknowledged
        &&& ({
            let room = with_room(self.reservations.entries@);
            if room.len() >= MAX_DIRECT_SEND_RESERVATIONS {
                &&& result == refused(ErrorCode::LeaseUnavailable)
                &&& after.reservations.entries@ == room
            } else {
                &&& result matches WireResult::Reserved { lease_id }
                &&& !holds(room, lease_id)
                &&& !self.kept@.contains(lease_id)
                &&& !self.unknown_acknowledged@.contains(lease_id)
                &&& is_version_4(lease_id)
                &&& after.reservations.entries@.len() == room.len() + 1
                &&& after.reservations.entries@.drop_last() == room
                &&& after.reservations.entries@.last().0 == lease_id
                &&& is_fresh_reservation(
                    after.reservations.entries@.last().1,
                    thread_id,
                    user_chronology_epoch,
                )
            }
        })
    }

    /// Reserves a composer-free send for `thread_id` in the current chronology.
    pub fn acquire(&mut self, thread_id: String, user_chronology_epoch: u64) -> (result: WireResult)
        requires
            old(self).well_formed(),
        ensures
            final(self).well_formed(),
            old(self).acquire_step(*final(self), thread_id@, user_chronology_epoch, result),
    {
        self.retire_terminal();
        if self.reservations.len() >= MAX_DIRECT_SEND_RESERVATIONS {
            return WireResult::not_applied(ErrorCode::LeaseUnavailable);
        }
        let mut taken: Vec<Uuid> = self.reservations.ids();
        let mut kept: Vec<Uuid> = copy_ids(&self.kept);
        let mut acknowledged: Vec<Uuid> = copy_ids(&self.unknown_acknowledged);
        taken.append(&mut kept);
        taken.append(&mut acknowledged);
        let lease_id: Uuid = unused_id(&taken);
        proof {
            let ids = keys(self.reservations.entries@);
            keys_are_held(self.reservations.entries@, lease_id);
            concat_contains(ids, self.kept@, self.unknown_acknowledged@, lease_id);
        }
        let ghost room = self.reservations.entries@;
        self.reservations.push(
            lease_id,
            DirectSendReservation {
                thread_id,
                user_chronology_epoch,
                submission_id: random_uuid(),
                content_hash: None,
                release_on_settle: false,
                state: DirectSendState::Reserved,
            },
        );
        proof {
            let now = self.reservations.entries@;
            assert(now.drop_last() =~= room);
            assert forall|id: Uuid| #[trigger] holds(now, id) implies !self.kept@.contains(id)
                && !self.unknown_acknowledged@.contains(id) by {
                let at = index_of(now, id);
                if at < room.len() {
                    assert(room[at].0 == id);
                    assert(holds(room, id));
                }
            }
        }
        WireResult::Reserved { lease_id }
    }
}

/// What a state that is past its reservation answers to a submit.
pub open spec fn submit_answer(state: DirectSendState) -> WireResult {
    match state {
        DirectSendState::SubmissionPending { .. } => WireResult::SendAccepted,
        _ => state_answer(state),
    }
}

impl DirectSendReservation {
    /// The content that a submit latched is not another than `digest`.
    pub open spec fn admits(self, digest: TextDigest) -> bool {
        self.content_hash is None || self.content_hash == Some(digest)
    }

    /// The reservation with `digest` latched.
    pub open spec fn latched(self, digest: TextDigest) -> Self {
        DirectSendReservation { content_hash: Some(digest), ..self }
    }

    pub open spec fn in_state(self, state: DirectSendState) -> Self {
        DirectSendReservation { state, ..self }
    }

    /// The thread and the chronology are still those of the reservation.
    pub open spec fn is_current(self, thread_id: Option<Seq<char>>, epoch: u64) -> bool {
        thread_id == Some(self.thread_id@) && epoch == self.user_chronology_epoch
    }
}

fn is_current_reservation(
    reservation: &DirectSendReservation,
    thread_id: &Option<String>,
    epoch: u64,
) -> (current: bool)
    ensures
        current == reservation.is_current(text_view(*thread_id), epoch),
{
    match thread_id {
        Some(thread_id) => same_text(thread_id.as_str(), reservation.thread_id.as_str()) && epoch
            == reservation.user_chronology_epoch,
        None => false,
    }
}

impl DirectSendReservations {
    /// `after` is as `self`.
    pub open spec fn unchanged(self, after: Self) -> bool {
        &&& after.reservations.entries@ == self.reservations.entries@
        &&& after.kept == self.kept
        &&& after.unknown_acknowledged == self.unknown_acknowledged
    }

    /// What `prepare_submission` answers and changes.
    pub open spec fn submit_step(
        self,
        after: Self,
        lease_id: Uuid,
        expected: String,
        thread_id: Option<Seq<char>>,
        epoch: u64,
        prepared: Result<DirectPreparedSubmission, WireResult>,
    ) -> bool {
        &&& !self.reserved(lease_id) ==> prepared == Err::<DirectPreparedSubmission, _>(
            refused(ErrorCode::LeaseUnavailable),
        ) && self.unchanged(after)
        &&& self.reserved(lease_id) ==> {
            let reservation = self.reservation(lease_id);
            let digest = text_digest(expected@);
            let latched = reservation.latched(digest);
            if !reservation.admits(digest) {
                &&& prepared == Err::<DirectPreparedSubmission, _>(
                    refused(ErrorCode::ExpectedMismatch),
                )
                &&& self.unchanged(after)
            } else if !(reservation.state is Reserved) {
                &&& prepared == Err::<DirectPreparedSubmission, _>(
                    submit_answer(reservation.state),
                )
                &&& self.becomes(after, lease_id, latched)
            } else if !reservation.is_current(thread_id, epoch) {
                &&& prepared == Err::<DirectPreparedSubmission, _>(
                    refused(ErrorCode::ReservationChanged),
                )
                &&& self.becomes(
                    after,
                    lease_id,
                    latched.in_state(
                        DirectSendState::Resolved {
                            result: refused(ErrorCode::ReservationChanged),
                            sent: None,
                        },
                    ),
                )
            } else {
                &&& prepared matches Ok(ready)
                &&& ready.reservation_id == lease_id
                &&& ready.expected == expected
                &&& ready.submission@ == (SubmissionView {
                    submission_id: reservation.submission_id,
                    thread_id: reservation.thread_id@,
                    submitted_text: expected@,
                    leases: Seq::empty(),
                    direct_lease_id: Some(lease_id),
                })
                &&& after.reservation(lease_id).state matches
                    DirectSendState::Dispatching { receipt }
                &&& is_whole_receipt(receipt, reservation.submission_id, expected@)
                &&& self.becomes(
                    after,
                    lease_id,
                    latched.in_state(DirectSendState::Dispatching { receipt }),
                )
            }
        }
    }

    /// Latches the content of a reservation and, the first time, makes it ready for dispatch.
    ///
    /// Only a reservation that has never been submitted, in the thread and the chronology that
    /// it was made for, gives a submission.
    pub fn prepare_submission(
        &mut self,
        lease_id: Uuid,
        expected: String,
        current_thread_id: &Option<String>,
        current_user_chronology_epoch: u64,
    ) -> (prepared: Result<DirectPreparedSubmission, WireResult>)
        requires
            old(self).well_formed(),
        ensures
            final(self).well_formed(),
            old(self).submit_step(
                *final(self),
                lease_id,
                expected,
                text_view(*current_thread_id),
                current_user_chronology_epoch,
                prepared,
            ),
    {
        let at: usize = match self.reservations.position(lease_id) {
            Some(at) => at,
            None => return Err(WireResult::not_applied(ErrorCode::LeaseUnavailable)),
        };
        let expected_hash: TextDigest = text_hash(expected.as_str());
        if let Some(content_hash) = self.reservations.entries[at].1.content_hash {
            if content_hash != expected_hash {
                return Err(WireResult::not_applied(ErrorCode::ExpectedMismatch));
            }
        }
        let ghost before = self.reservations.entries@;
        let ghost reservation = filed(before, lease_id);
        proof {
            refiled_keeps_others(before, lease_id, reservation.latched(text_digest(expected@)));
        }
        self.reservations.entries[at].1.content_hash = Some(expected_hash);
        assert(self.reservations.entries@ =~= refiled(
            before,
            lease_id,
            reservation.latched(text_digest(expected@)),
        ));
        match &self.reservations.entries[at].1.state {
            DirectSendState::Reserved => {},
            DirectSendState::SubmissionPending { .. } => return Err(WireResult::SendAccepted),
            state => return Err(state_wire_result(state)),
        }
        if !is_current_reservation(
            &self.reservations.entries[at].1,
            current_thread_id,
            current_user_chronology_epoch,
        ) {
            let result: WireResult = WireResult::not_applied(ErrorCode::ReservationChanged);
            self.reservations.entries[at].1.state = DirectSendState::Resolved {
                result,
                sent: None,
            };
            proof {
                let next = reservation.latched(text_digest(expected@)).in_state(
                    DirectSendState::Resolved { result, sent: None },
                );
                refiled_keeps_others(before, lease_id, next);
                assert(self.reservations.entries@ =~= refiled(before, lease_id, next));
            }
            return Err(result);
        }
        let submission: NativeComposerSubmission = NativeComposerSubmission::new_direct(
            self.reservations.entries[at].1.submission_id,
            lease_id,
            self.reservations.entries[at].1.thread_id.clone(),
            expected.as_str(),
        );
        let receipt: SubmittedLeaseReceipt = direct_receipt(&submission);
        self.reservations.entries[at].1.state = DirectSendState::Dispatching { receipt };
        proof {
            let next = reservation.latched(text_digest(expected@)).in_state(
                DirectSendState::Dispatching { receipt },
            );
            refiled_keeps_others(before, lease_id, next);
            assert(self.reservations.entries@ =~= refiled(before, lease_id, next));
        }
        Ok(DirectPreparedSubmission { reservation_id: lease_id, submission, expected })
    }

    /// What `finish_submission` answers and changes.
    pub open spec fn finish_submission_step(
        self,
        after: Self,
        lease_id: Uuid,
        submission_id: Uuid,
        outcome: SubmissionDispatchOutcome,
        result: WireResult,
    ) -> bool {
        &&& !self.reserved(lease_id) ==> result == refused(ErrorCode::LeaseUnavailable)
            && self.unchanged(after)
        &&& self.reserved(lease_id) ==> {
            let reservation = self.reservation(lease_id);
            match reservation.state {
                DirectSendState::Dispatching { receipt } => if receipt.submission_id
                    != submission_id {
                    &&& result == refused(ErrorCode::ExpectedMismatch)
                    &&& self.unchanged(after)
                } else {
                    &&& result == submission_result(outcome)
                    &&& self.becomes(
                        after,
                        lease_id,
                        reservation.in_state(
                            match outcome {
                                SubmissionDispatchOutcome::Accepted => {
                                    DirectSendState::SubmissionPending { receipt }
                                },
                                SubmissionDispatchOutcome::NotApplied(code) => {
                                    DirectSendState::Resolved {
                                        result: refused(code),
                                        sent: None,
                                    }
                                },
                                _ => DirectSendState::Resolved {
                                    result: WireResult::Unknown,
                                    sent: Some(receipt),
                                },
                            },
                        ),
                    )
                },
                _ => {
                    &&& result == state_answer(reservation.state)
                    &&& self.unchanged(after)
                },
            }
        }
    }

    /// Settles the dispatch that is under way for a reservation. A completion that names another
    /// submission, or that comes when no dispatch is under way, changes nothing.
    pub fn finish_submission(
        &mut self,
        lease_id: Uuid,
        submission_id: Uuid,
        outcome: SubmissionDispatchOutcome,
    ) -> (result: WireResult)
        requires
            old(self).well_formed(),
        ensures
            final(self).well_formed(),
            old(self).finish_submission_step(*final(self), lease_id, submission_id, outcome, result),
    {
        let at: usize = match self.reservations.position(lease_id) {
            Some(at) => at,
            None => return WireResult::not_applied(ErrorCode::LeaseUnavailable),
        };
        let ghost before = self.reservations.entries@;
        let ghost reservation = filed(before, lease_id);
        let receipt: SubmittedLeaseReceipt = match &self.reservations.entries[at].1.state {
            DirectSendState::Dispatching { receipt } => receipt.copied(),
            state => return state_wire_result(state),
        };
        if receipt.submission_id != submission_id {
            return WireResult::not_applied(ErrorCode::ExpectedMismatch);
        }
        let (result, state) = match outcome {
            SubmissionDispatchOutcome::Accepted => (
                WireResult::SendAccepted,
                DirectSendState::SubmissionPending { receipt },
            ),
            SubmissionDispatchOutcome::AcceptedButUncommitted
            | SubmissionDispatchOutcome::Unknown => (
                WireResult::Unknown,
                DirectSendState::Resolved { result: WireResult::Unknown, sent: Some(receipt) },
            ),
            SubmissionDispatchOutcome::NotApplied(code) => (
                WireResult::not_applied(code),
                DirectSendState::Resolved { result: WireResult::not_applied(code), sent: None },
            ),
        };
        let ghost next = reservation.in_state(state);
        self.reservations.entries[at].1.state = state;
        proof {
            refiled_keeps_others(before, lease_id, next);
            assert(self.reservations.entries@ =~= refiled(before, lease_id, next));
        }
        result
    }

    /// Whether a reservation is still good for `expected`. Nothing is latched.
    pub fn verify(
        &self,
        lease_id: Uuid,
        expected: &str,
        current_thread_id: &Option<String>,
        current_user_chronology_epoch: u64,
    ) -> (result: WireResult)
        requires
            self.well_formed(),
        ensures
            result == self.verify_answer(
                lease_id,
                expected@,
                text_view(*current_thread_id),
                current_user_chronology_epoch,
            ),
    {
        let reservation: &DirectSendReservation = match self.reservations.get(lease_id) {
            Some(reservation) => reservation,
            None => return WireResult::not_applied(ErrorCode::LeaseUnavailable),
        };
        if let Some(content_hash) = reservation.content_hash {
            if content_hash != text_hash(expected) {
                return WireResult::not_applied(ErrorCode::ExpectedMismatch);
            }
        }
        match &reservation.state {
            DirectSendState::Reserved => if is_current_reservation(
                reservation,
                current_thread_id,
                current_user_chronology_epoch,
            ) {
                WireResult::Verified
            } else {
                WireResult::not_applied(ErrorCode::ReservationChanged)
            },
            state => state_wire_result(state),
        }
    }

    /// What `verify` answers.
    pub open spec fn verify_answer(
        self,
        lease_id: Uuid,
        expected: Seq<char>,
        thread_id: Option<Seq<char>>,
        epoch: u64,
    ) -> WireResult {
        let reservation = self.reservation(lease_id);
        if !self.reserved(lease_id) {
            refused(ErrorCode::LeaseUnavailable)
        } else if !reservation.admits(text_digest(expected)) {
            refused(ErrorCode::ExpectedMismatch)
        } else if !(reservation.state is Reserved) {
            state_answer(reservation.state)
        } else if reservation.is_current(thread_id, epoch) {
            WireResult::Verified
        } else {
            refused(ErrorCode::ReservationChanged)
        }
    }

    /// Removes a reservation.
    fn remove(&mut self, lease_id: Uuid)
        requires
            old(self).well_formed(),
        ensures
            final(self).well_formed(),
            final(self).reservations.entries@ == without(
                old(self).reservations.entries@,
                lease_id,
            ),
            final(self).kept == old(self).kept,
            final(self).unknown_acknowledged == old(self).unknown_acknowledged,
    {
        proof {
            without_keeps_others(self.reservations.entries@, lease_id);
        }
        self.reservations.remove(lease_id);
    }

    /// Removes a reservation and remembers that it was kept.
    fn remove_kept(&mut self, lease_id: Uuid)
        requires
            old(self).well_formed(),
        ensures
            final(self).well_formed(),
            old(self).lets_go(*final(self), lease_id),
    {
        self.remove(lease_id);
        note_retired(&mut self.kept, lease_id, MAX_DIRECT_SEND_KEEP_TOMBSTONES);
    }

    /// Removes a reservation and remembers that its unknown outcome was acknowledged.
    fn remove_unknown_acknowledged(&mut self, lease_id: Uuid)
        requires
            old(self).well_formed(),
        ensures
            final(self).well_formed(),
            old(self).forgets(*final(self), lease_id),
    {
        self.remove(lease_id);
        note_retired(
            &mut self.unknown_acknowledged,
            lease_id,
            MAX_DIRECT_SEND_UNKNOWN_ACKNOWLEDGEMENT_TOMBSTONES,
        );
    }

    /// `after` is `self` without the reservation under `id`, whose unknown outcome is noted as
    /// acknowledged.
    pub open spec fn forgets(self, after: Self, id: Uuid) -> bool {
        &&& after.reservations.entries@ == without(self.reservations.entries@, id)
        &&& after.kept == self.kept
        &&& after.unknown_acknowledged@ == noted(
            self.unknown_acknowledged@,
            id,
            MAX_DIRECT_SEND_UNKNOWN_ACKNOWLEDGEMENT_TOMBSTONES as int,
        )
    }

    /// What `keep` answers and changes.
    pub open spec fn keep_step(
        self,
        after: Self,
        lease_id: Uuid,
        result: WireResult,
    ) -> bool {
        &&& !self.reserved(lease_id) ==> {
            &&& result == if self.kept@.contains(lease_id) {
                WireResult::Kept
            } else {
                refused(ErrorCode::LeaseUnavailable)
            }
            &&& self.unchanged(after)
        }
        &&& self.reserved(lease_id) ==> {
            let reservation = self.reservation(lease_id);
            let waiting = DirectSendReservation { release_on_settle: true, ..reservation };
            match reservation.state {
                DirectSendState::Reserved
                | DirectSendState::SubmittedIntact { .. }
                | DirectSendState::SubmissionAbandoned { .. } => {
                    &&& result == WireResult::Kept
                    &&& self.lets_go(after, lease_id)
                },
                DirectSendState::SubmissionPending { .. } => {
                    &&& result == WireResult::Kept
                    &&& self.becomes(after, lease_id, waiting)
                },
                DirectSendState::Dispatching { .. } => {
                    &&& result == WireResult::Unknown
                    &&& self.becomes(after, lease_id, waiting)
                },
                DirectSendState::Resolved { result: resolved, .. } => if had_no_effect(
                    resolved,
                ) {
                    &&& result == WireResult::Kept
                    &&& self.lets_go(after, lease_id)
                } else if resolved == WireResult::Unknown {
                    &&& result == WireResult::Unknown
                    &&& self.becomes(after, lease_id, waiting)
                } else {
                    &&& result == resolved
                    &&& self.unchanged(after)
                },
                DirectSendState::CorrectionPending { .. } => {
                    &&& result == refused(ErrorCode::LeaseUnavailable)
                    &&& self.unchanged(after)
                },
            }
        }
    }

    /// Lets a reservation go. One whose message may be on its way is let go when that settles.
    pub fn keep(&mut self, lease_id: Uuid) -> (result: WireResult)
        requires
            old(self).well_formed(),
        ensures
            final(self).well_formed(),
            old(self).keep_step(*final(self), lease_id, result),
    {
        let at: usize = match self.reservations.position(lease_id) {
            Some(at) => at,
            None => return if lists(&self.kept, lease_id) {
                WireResult::Kept
            } else {
                WireResult::not_applied(ErrorCode::LeaseUnavailable)
            },
        };
        let ghost before = self.reservations.entries@;
        let ghost reservation = filed(before, lease_id);
        let result: WireResult = match &self.reservations.entries[at].1.state {
            DirectSendState::Reserved
            | DirectSendState::SubmittedIntact { .. }
            | DirectSendState::SubmissionAbandoned { .. } => {
                self.remove_kept(lease_id);
                return WireResult::Kept;
            },
            DirectSendState::Resolved { result, .. } => {
                if no_effect(result) {
                    self.remove_kept(lease_id);
                    return WireResult::Kept;
                }
                if *result != WireResult::Unknown {
                    return *result;
                }
                WireResult::Unknown
            },
            DirectSendState::SubmissionPending { .. } => WireResult::Kept,
            DirectSendState::Dispatching { .. } => WireResult::Unknown,
            DirectSendState::CorrectionPending { .. } => {
                return WireResult::not_applied(ErrorCode::LeaseUnavailable);
            },
        };
        self.reservations.entries[at].1.release_on_settle = true;
        proof {
            let waiting = DirectSendReservation { release_on_settle: true, ..reservation };
            refiled_keeps_others(before, lease_id, waiting);
            assert(self.reservations.entries@ =~= refiled(before, lease_id, waiting));
        }
        result
    }

    /// What `acknowledge_unknown` answers and changes.
    pub open spec fn acknowledge_step(
        self,
        after: Self,
        lease_id: Uuid,
        result: WireResult,
    ) -> bool {
        &&& !self.reserved(lease_id) ==> {
            &&& result == if self.unknown_acknowledged@.contains(lease_id) {
                WireResult::UnknownAcknowledged
            } else {
                refused(ErrorCode::LeaseUnavailable)
            }
            &&& self.unchanged(after)
        }
        &&& self.reserved(lease_id) ==> {
            let state = self.reservation(lease_id).state;
            if state is Resolved && state_answer(state) == WireResult::Unknown {
                &&& result == WireResult::UnknownAcknowledged
                &&& self.forgets(after, lease_id)
            } else {
                &&& result == state_answer(state)
                &&& self.unchanged(after)
            }
        }
    }

    /// Accepts that the outcome of a dispatch cannot be known.
    pub fn acknowledge_unknown(&mut self, lease_id: Uuid) -> (result: WireResult)
        requires
            old(self).well_formed(),
        ensures
            final(self).well_formed(),
            old(self).acknowledge_step(*final(self), lease_id, result),
    {
        let at: usize = match self.reservations.position(lease_id) {
            Some(at) => at,
            None => return if lists(&self.unknown_acknowledged, lease_id) {
                WireResult::UnknownAcknowledged
            } else {
                WireResult::not_applied(ErrorCode::LeaseUnavailable)
            },
        };
        match &self.reservations.entries[at].1.state {
            DirectSendState::Resolved { result, .. } => {
                if *result != WireResult::Unknown {
                    return *result;
                }
            },
            state => return state_wire_result(state),
        }
        self.remove_unknown_acknowledged(lease_id);
        WireResult::UnknownAcknowledged
    }
}

/// The proposal asks for the correction of `receipt`'s text from `expected` to `replacement`.
pub open spec fn proposes(
    proposal: CorrectionProposal,
    lease_id: Uuid,
    origin: CorrectionOrigin,
    thread_id: String,
    receipt: SubmittedLeaseReceipt,
    expected: String,
    replacement: String,
) -> bool {
    &&& proposal.well_formed()
    &&& is_version_4(proposal.correction_id)
    &&& proposal.lease_id == lease_id
    &&& proposal.origin == origin
    &&& proposal.thread_id == thread_id
    &&& proposal.receipt == receipt
    &&& proposal.expected == expected
    &&& proposal.replacement == replacement
}

/// The dispatch of the correction `correction_id` of `receipt`'s text.
pub open spec fn dispatches(
    correction: PreparedCorrection,
    lease_id: Uuid,
    origin: CorrectionOrigin,
    thread_id: Seq<char>,
    correction_id: Uuid,
    receipt: SubmittedLeaseReceipt,
    payload: Seq<char>,
) -> bool {
    &&& correction.lease_id == lease_id
    &&& correction.origin == origin
    &&& correction.thread_id@ == thread_id
    &&& correction.correction_id == correction_id
    &&& correction.expected_client_user_message_id@ == client_message_id(receipt.submission_id)
    &&& correction.payload@ == payload
}

/// Spells out a new correction of `receipt`'s text; none where it is too long to be spelled out.
pub fn propose_correction(
    lease_id: Uuid,
    origin: CorrectionOrigin,
    thread_id: String,
    receipt: SubmittedLeaseReceipt,
    expected: String,
    replacement: String,
) -> (proposal: Option<CorrectionProposal>)
    requires
        receipt.owned() == Some(expected@),
        expected@ != replacement@,
    ensures
        match proposal {
            Some(made) => proposes(
                made,
                lease_id,
                origin,
                thread_id,
                receipt,
                expected,
                replacement,
            ),
            None => cannot_spell(expected@, replacement@),
        },
{
    let correction_id: Uuid = random_uuid();
    proof {
        text_at_bytes(
            receipt.submitted_text@,
            receipt.range.start as int,
            receipt.range.end as int,
        );
    }
    match mechanical_correction_context(
        receipt.submission_id,
        receipt.submitted_text.as_str(),
        &receipt.range,
        expected.as_str(),
        replacement.as_str(),
    ) {
        Some(drafts) => Some(
            CorrectionProposal {
                lease_id,
                origin,
                thread_id,
                correction_id,
                receipt,
                expected,
                replacement,
                drafts,
            },
        ),
        None => None,
    }
}

/// The dispatch of an admitted correction.
pub fn prepare_correction(
    lease_id: Uuid,
    origin: CorrectionOrigin,
    thread_id: String,
    correction_id: Uuid,
    submission_id: Uuid,
    payload: String,
) -> (correction: PreparedCorrection)
    ensures
        correction.lease_id == lease_id,
        correction.origin == origin,
        correction.thread_id == thread_id,
        correction.correction_id == correction_id,
        correction.expected_client_user_message_id@ == client_message_id(submission_id),
        correction.payload == payload,
{
    PreparedCorrection {
        lease_id,
        origin,
        thread_id,
        correction_id,
        expected_client_user_message_id: client_message_id_of(submission_id),
        payload,
    }
}

impl DirectSendReservations {
    /// Asks for the correction of a sent message. A pending correction is dispatched again when
    /// the very same replacement is asked for.
    pub fn replace(&mut self, lease_id: Uuid, expected: String, replacement: String) -> (outcome:
        ReplaceOutcome)
        requires
            old(self).well_formed(),
        ensures
            final(self).well_formed(),
            old(self).replace_step(*final(self), lease_id, expected, replacement, outcome),
    {
        let at: usize = match self.reservations.position(lease_id) {
            Some(at) => at,
            None => return ReplaceOutcome::Complete(
                WireResult::not_applied(ErrorCode::LeaseUnavailable),
            ),
        };
        let matches_content: bool = match self.reservations.entries[at].1.content_hash {
            Some(content_hash) => content_hash == text_hash(expected.as_str()),
            None => false,
        };
        if !matches_content {
            return ReplaceOutcome::Complete(WireResult::not_applied(ErrorCode::ExpectedMismatch));
        }
        match &self.reservations.entries[at].1.state {
            DirectSendState::Reserved => ReplaceOutcome::Complete(
                WireResult::not_applied(ErrorCode::LeaseUnavailable),
            ),
            DirectSendState::SubmittedIntact { receipt } => {
                if same_text(expected.as_str(), replacement.as_str()) {
                    self.remove(lease_id);
                    return ReplaceOutcome::Complete(WireResult::Kept);
                }
                if !receipt.owns(expected.as_str()) {
                    return ReplaceOutcome::Complete(
                        WireResult::not_applied(ErrorCode::ExpectedMismatch),
                    );
                }
                let receipt: SubmittedLeaseReceipt = receipt.copied();
                let thread_id: String = self.reservations.entries[at].1.thread_id.clone();
                match propose_correction(
                    lease_id,
                    CorrectionOrigin::Direct,
                    thread_id,
                    receipt,
                    expected,
                    replacement,
                ) {
                    Some(proposal) => ReplaceOutcome::Propose(proposal),
                    None => ReplaceOutcome::Complete(
                        WireResult::not_applied(ErrorCode::CorrectionUnavailable),
                    ),
                }
            },
            DirectSendState::CorrectionPending {
                receipt,
                correction_id,
                expected: pending_expected,
                replacement: pending_replacement,
                payload,
            } => {
                if !same_text(expected.as_str(), pending_expected.as_str()) || !same_text(
                    replacement.as_str(),
                    pending_replacement.as_str(),
                ) {
                    return ReplaceOutcome::Complete(
                        WireResult::not_applied(ErrorCode::LeaseUnavailable),
                    );
                }
                ReplaceOutcome::Correct(
                    prepare_correction(
                        lease_id,
                        CorrectionOrigin::Direct,
                        self.reservations.entries[at].1.thread_id.clone(),
                        *correction_id,
                        receipt.submission_id,
                        payload.clone(),
                    ),
                )
            },
            state => ReplaceOutcome::Complete(state_wire_result(state)),
        }
    }

    /// What `replace` answers and changes.
    pub open spec fn replace_step(
        self,
        after: Self,
        lease_id: Uuid,
        expected: String,
        replacement: String,
        outcome: ReplaceOutcome,
    ) -> bool {
        let reservation = self.reservation(lease_id);
        if !self.reserved(lease_id) {
            &&& outcome == ReplaceOutcome::Complete(refused(ErrorCode::LeaseUnavailable))
            &&& self.unchanged(after)
        } else if reservation.content_hash != Some(text_digest(expected@)) {
            &&& outcome == ReplaceOutcome::Complete(refused(ErrorCode::ExpectedMismatch))
            &&& self.unchanged(after)
        } else {
            match reservation.state {
                DirectSendState::Reserved => {
                    &&& outcome == ReplaceOutcome::Complete(refused(ErrorCode::LeaseUnavailable))
                    &&& self.unchanged(after)
                },
                DirectSendState::SubmittedIntact { receipt } => if expected@ == replacement@ {
                    &&& outcome == ReplaceOutcome::Complete(WireResult::Kept)
                    &&& after.reservations.entries@ == without(self.reservations.entries@, lease_id)
                    &&& after.kept == self.kept
                    &&& after.unknown_acknowledged == self.unknown_acknowledged
                } else if receipt.owned() != Some(expected@) {
                    &&& outcome == ReplaceOutcome::Complete(refused(ErrorCode::ExpectedMismatch))
                    &&& self.unchanged(after)
                } else {
                    &&& self.unchanged(after)
                    &&& match outcome {
                        ReplaceOutcome::Propose(proposal) => proposes(
                            proposal,
                            lease_id,
                            CorrectionOrigin::Direct,
                            reservation.thread_id,
                            receipt,
                            expected,
                            replacement,
                        ),
                        ReplaceOutcome::Complete(result) => result == refused(
                            ErrorCode::CorrectionUnavailable,
                        ) && cannot_spell(expected@, replacement@),
                        ReplaceOutcome::Correct(_) => false,
                    }
                },
                DirectSendState::CorrectionPending {
                    receipt,
                    correction_id,
                    expected: pending_expected,
                    replacement: pending_replacement,
                    payload,
                } => {
                    &&& self.unchanged(after)
                    &&& if expected@ == pending_expected@ && replacement@ == pending_replacement@ {
                        &&& outcome matches ReplaceOutcome::Correct(correction)
                        &&& dispatches(
                            correction,
                            lease_id,
                            CorrectionOrigin::Direct,
                            reservation.thread_id@,
                            correction_id,
                            receipt,
                            payload@,
                        )
                    } else {
                        outcome == ReplaceOutcome::Complete(refused(ErrorCode::LeaseUnavailable))
                    }
                },
                _ => {
                    &&& outcome == ReplaceOutcome::Complete(state_answer(reservation.state))
                    &&& self.unchanged(after)
                },
            }
        }
    }

    /// The reservation is still in the state that the proposal was made from.
    pub open spec fn awaits(self, proposal: CorrectionProposal) -> bool {
        &&& self.reserved(proposal.lease_id)
        &&& self.reservation(proposal.lease_id).state matches DirectSendState::SubmittedIntact {
            receipt,
        }
        &&& receipt.submission_id == proposal.receipt.submission_id
    }

    /// What `admit_correction` answers and changes.
    pub open spec fn admit_step(
        self,
        after: Self,
        proposal: CorrectionProposal,
        truncated: bool,
        outcome: ReplaceOutcome,
    ) -> bool {
        &&& if !self.awaits(proposal) {
            &&& outcome == ReplaceOutcome::Complete(refused(ErrorCode::LeaseUnavailable))
            &&& self.unchanged(after)
        } else if truncated {
            &&& outcome == ReplaceOutcome::Complete(refused(ErrorCode::CorrectionUnavailable))
            &&& self.unchanged(after)
        } else {
            let reservation = self.reservation(proposal.lease_id);
            &&& self.becomes(
                after,
                proposal.lease_id,
                reservation.in_state(
                    DirectSendState::CorrectionPending {
                        receipt: proposal.receipt,
                        correction_id: proposal.correction_id,
                        expected: proposal.expected,
                        replacement: proposal.replacement,
                        payload: proposal.drafts@.last(),
                    },
                ),
            )
            &&& outcome matches ReplaceOutcome::Correct(correction)
            &&& dispatches(
                correction,
                proposal.lease_id,
                CorrectionOrigin::Direct,
                reservation.thread_id@,
                proposal.correction_id,
                proposal.receipt,
                proposal.payload(),
            )
        }
    }

    /// Admits a proposed correction whose drafts all fit, and drops one that does not.
    pub fn admit_correction(&mut self, proposal: CorrectionProposal, truncated: bool) -> (outcome:
        ReplaceOutcome)
        requires
            old(self).well_formed(),
            proposal.drafts@.len() > 0,
        ensures
            final(self).well_formed(),
            old(self).admit_step(*final(self), proposal, truncated, outcome),
    {
        let lease_id: Uuid = proposal.lease_id;
        let at: usize = match self.reservations.position(lease_id) {
            Some(at) => at,
            None => return ReplaceOutcome::Complete(
                WireResult::not_applied(ErrorCode::LeaseUnavailable),
            ),
        };
        let awaited: bool = match &self.reservations.entries[at].1.state {
            DirectSendState::SubmittedIntact { receipt } => receipt.submission_id
                == proposal.receipt.submission_id,
            _ => false,
        };
        if !awaited {
            return ReplaceOutcome::Complete(WireResult::not_applied(ErrorCode::LeaseUnavailable));
        }
        if truncated {
            return ReplaceOutcome::Complete(
                WireResult::not_applied(ErrorCode::CorrectionUnavailable),
            );
        }
        let ghost before = self.reservations.entries@;
        let ghost reservation = filed(before, lease_id);
        let payload: String = proposal.drafts[proposal.drafts.len() - 1].clone();
        let correction: PreparedCorrection = prepare_correction(
            lease_id,
            CorrectionOrigin::Direct,
            self.reservations.entries[at].1.thread_id.clone(),
            proposal.correction_id,
            proposal.receipt.submission_id,
            payload.clone(),
        );
        self.reservations.entries[at].1.state = DirectSendState::CorrectionPending {
            receipt: proposal.receipt,
            correction_id: proposal.correction_id,
            expected: proposal.expected,
            replacement: proposal.replacement,
            payload,
        };
        proof {
            let next = reservation.in_state(
                DirectSendState::CorrectionPending {
                    receipt: proposal.receipt,
                    correction_id: proposal.correction_id,
                    expected: proposal.expected,
                    replacement: proposal.replacement,
                    payload: proposal.drafts@.last(),
                },
            );
            refiled_keeps_others(before, lease_id, next);
            assert(self.reservations.entries@ =~= refiled(before, lease_id, next));
        }
        ReplaceOutcome::Correct(correction)
    }

    /// The correction `correction_id` is the one that is pending.
    pub open spec fn is_pending_correction(self, lease_id: Uuid, correction_id: Uuid) -> bool {
        &&& self.reserved(lease_id)
        &&& self.reservation(lease_id).state matches DirectSendState::CorrectionPending {
            correction_id: current,
            ..
        }
        &&& current == correction_id
    }

    /// What `finish_correction` answers and changes.
    pub open spec fn finish_correction_step(
        self,
        after: Self,
        lease_id: Uuid,
        correction_id: Uuid,
        outcome: CorrectionDispatchOutcome,
        result: WireResult,
    ) -> bool {
        &&& result == correction_result(outcome)
        &&& if !self.is_pending_correction(lease_id, correction_id) || outcome
            == CorrectionDispatchOutcome::Unknown {
            self.unchanged(after)
        } else if outcome == CorrectionDispatchOutcome::Accepted {
            &&& after.reservations.entries@ == without(
                self.reservations.entries@,
                lease_id,
            )
            &&& after.kept == self.kept
            &&& after.unknown_acknowledged == self.unknown_acknowledged
        } else {
            let reservation = self.reservation(lease_id);
            self.becomes(
                after,
                lease_id,
                reservation.in_state(
                    DirectSendState::SubmittedIntact {
                        receipt: reservation.state->CorrectionPending_receipt,
                    },
                ),
            )
        }
    }

    /// Settles a dispatched correction. A completion of another correction than the pending one
    /// changes nothing.
    pub fn finish_correction(
        &mut self,
        lease_id: Uuid,
        correction_id: Uuid,
        outcome: CorrectionDispatchOutcome,
    ) -> (result: WireResult)
        requires
            old(self).well_formed(),
        ensures
            final(self).well_formed(),
            old(self).finish_correction_step(*final(self), lease_id, correction_id, outcome, result),
    {
        let result: WireResult = match outcome {
            CorrectionDispatchOutcome::Accepted => WireResult::CorrectionQueued,
            CorrectionDispatchOutcome::NotApplied => WireResult::not_applied(
                ErrorCode::CorrectionUnavailable,
            ),
            CorrectionDispatchOutcome::Unknown => WireResult::CorrectionPending,
        };
        let at: usize = match self.reservations.position(lease_id) {
            Some(at) => at,
            None => return result,
        };
        let ghost before = self.reservations.entries@;
        let ghost reservation = filed(before, lease_id);
        let receipt: SubmittedLeaseReceipt = match &self.reservations.entries[at].1.state {
            DirectSendState::CorrectionPending { receipt, correction_id: current, .. } => {
                if *current != correction_id {
                    return result;
                }
                receipt.copied()
            },
            _ => return result,
        };
        match outcome {
            CorrectionDispatchOutcome::Accepted => {
                self.remove(lease_id);
            },
            CorrectionDispatchOutcome::NotApplied => {
                self.reservations.entries[at].1.state = DirectSendState::SubmittedIntact {
                    receipt,
                };
                proof {
                    let next = reservation.in_state(DirectSendState::SubmittedIntact { receipt });
                    refiled_keeps_others(before, lease_id, next);
                    assert(self.reservations.entries@ =~= refiled(before, lease_id, next));
                }
            },
            CorrectionDispatchOutcome::Unknown => {},
        }
        result
    }
}

/// A message of the reservation may be on its way: it has been dispatched and not settled.
pub open spec fn in_flight(state: DirectSendState) -> bool {
    match state {
        DirectSendState::Dispatching { .. } => true,
        DirectSendState::Resolved { result, .. } => result == WireResult::Unknown,
        DirectSendState::SubmissionPending { .. } => true,
        _ => false,
    }
}

fn is_in_flight(state: &DirectSendState) -> (is: bool)
    ensures
        is == in_flight(*state),
{
    match state {
        DirectSendState::Dispatching { .. } => true,
        DirectSendState::Resolved { result, .. } => *result == WireResult::Unknown,
        DirectSendState::SubmissionPending { .. } => true,
        _ => false,
    }
}

/// The reservation waits for exactly this submission.
pub open spec fn expects(reservation: DirectSendReservation, submission: SubmissionView) -> bool {
    &&& reservation.submission_id == submission.submission_id
    &&& reservation.content_hash == Some(text_digest(submission.submitted_text))
    &&& in_flight(reservation.state)
}

impl DirectSendReservations {
    /// The submission is that of a reservation which waits for it.
    pub open spec fn is_awaited(self, submission: SubmissionView) -> bool {
        &&& submission.direct_lease_id is Some
        &&& self.reserved(submission.direct_lease_id->0)
        &&& expects(self.reservation(submission.direct_lease_id->0), submission)
    }

    /// What `note_submission_pending` changes.
    pub open spec fn pending_step(
        self,
        after: Self,
        submission: SubmissionView,
    ) -> bool {
        &&& if !self.is_awaited(submission) {
            self.unchanged(after)
        } else {
            let lease_id = submission.direct_lease_id->0;
            &&& after.reservation(lease_id).state matches
                DirectSendState::SubmissionPending { receipt }
            &&& is_whole_receipt(receipt, submission.submission_id, submission.submitted_text)
            &&& self.becomes(
                after,
                lease_id,
                self.reservation(lease_id).in_state(
                    DirectSendState::SubmissionPending { receipt },
                ),
            )
        }
    }

    /// Notes that the app-server took a submission.
    pub fn note_submission_pending(&mut self, submission: &NativeComposerSubmission)
        requires
            old(self).well_formed(),
        ensures
            final(self).well_formed(),
            old(self).pending_step(*final(self), submission@),
    {
        let lease_id: Uuid = match submission.direct_lease_id {
            Some(lease_id) => lease_id,
            None => return,
        };
        let at: usize = match self.reservations.position(lease_id) {
            Some(at) => at,
            None => return,
        };
        let ghost before = self.reservations.entries@;
        let ghost reservation = filed(before, lease_id);
        let latched: bool = match self.reservations.entries[at].1.content_hash {
            Some(content_hash) => content_hash == text_hash(submission.submitted_text.as_str()),
            None => false,
        };
        if self.reservations.entries[at].1.submission_id != submission.submission_id || !latched
            || !is_in_flight(&self.reservations.entries[at].1.state) {
            return;
        }
        let receipt: SubmittedLeaseReceipt = direct_receipt(submission);
        self.reservations.entries[at].1.state = DirectSendState::SubmissionPending { receipt };
        proof {
            let next = reservation.in_state(DirectSendState::SubmissionPending { receipt });
            refiled_keeps_others(before, lease_id, next);
            assert(self.reservations.entries@ =~= refiled(before, lease_id, next));
        }
    }

    /// What `note_submission_committed` changes.
    pub open spec fn committed_step(
        self,
        after: Self,
        submission: SubmissionView,
    ) -> bool {
        &&& submission.direct_lease_id is None ==> self.unchanged(after)
        &&& submission.direct_lease_id is Some ==> {
            let lease_id = submission.direct_lease_id->0;
            let reservation = self.reservation(lease_id);
            if !self.reserved(lease_id) {
                self.unchanged(after)
            } else if reservation.release_on_settle {
                self.lets_go(after, lease_id)
            } else if self.is_awaited(submission) {
                &&& after.reservation(lease_id).state matches
                    DirectSendState::SubmittedIntact { receipt }
                &&& is_whole_receipt(
                    receipt,
                    submission.submission_id,
                    submission.submitted_text,
                )
                &&& self.becomes(
                    after,
                    lease_id,
                    reservation.in_state(DirectSendState::SubmittedIntact { receipt }),
                )
            } else {
                match reservation.state {
                    DirectSendState::SubmissionPending { receipt } => self.becomes(
                        after,
                        lease_id,
                        reservation.in_state(DirectSendState::SubmittedIntact { receipt }),
                    ),
                    _ => self.unchanged(after),
                }
            }
        }
    }

    /// Notes that a submission is in model history. A reservation that was let go meanwhile is
    /// removed.
    pub fn note_submission_committed(&mut self, submission: &NativeComposerSubmission)
        requires
            old(self).well_formed(),
        ensures
            final(self).well_formed(),
            old(self).committed_step(*final(self), submission@),
    {
        let ghost before = self.reservations.entries@;
        self.note_submission_pending(submission);
        let lease_id: Uuid = match submission.direct_lease_id {
            Some(lease_id) => lease_id,
            None => return,
        };
        let ghost reservation = filed(before, lease_id);
        let ghost pending = self.reservations.entries@;
        proof {
            if holds(before, lease_id) {
                index_is(before, index_of(before, lease_id));
                let current = filed(pending, lease_id);
                refiled_keeps_others(before, lease_id, current);
                assert(without(pending, lease_id) =~= without(before, lease_id)) by {
                    index_is(pending, index_of(before, lease_id));
                }
            }
        }
        let at: usize = match self.reservations.position(lease_id) {
            Some(at) => at,
            None => return,
        };
        if self.reservations.entries[at].1.release_on_settle {
            self.remove_kept(lease_id);
            return;
        }
        let receipt: SubmittedLeaseReceipt = match &self.reservations.entries[at].1.state {
            DirectSendState::SubmissionPending { receipt } => receipt.copied(),
            _ => return,
        };
        self.reservations.entries[at].1.state = DirectSendState::SubmittedIntact { receipt };
        proof {
            let next = reservation.in_state(DirectSendState::SubmittedIntact { receipt });
            refiled_keeps_others(before, lease_id, next);
            assert(self.reservations.entries@ =~= refiled(before, lease_id, next));
        }
    }

    /// What `note_submission_abandoned` changes.
    pub open spec fn abandoned_step(
        self,
        after: Self,
        submission: SubmissionView,
    ) -> bool {
        &&& submission.direct_lease_id is None ==> self.unchanged(after)
        &&& submission.direct_lease_id is Some ==> {
            let lease_id = submission.direct_lease_id->0;
            let reservation = self.reservation(lease_id);
            if !self.reserved(lease_id) || reservation.submission_id
                != submission.submission_id {
                self.unchanged(after)
            } else if reservation.release_on_settle {
                self.lets_go(after, lease_id)
            } else {
                &&& after.reservation(lease_id).state matches
                    DirectSendState::SubmissionAbandoned { receipt }
                &&& is_whole_receipt(
                    receipt,
                    submission.submission_id,
                    submission.submitted_text,
                )
                &&& self.becomes(
                    after,
                    lease_id,
                    reservation.in_state(DirectSendState::SubmissionAbandoned { receipt }),
                )
            }
        }
    }

    /// Notes that a submission will not come into model history. A reservation that was let go
    /// meanwhile is removed.
    pub fn note_submission_abandoned(&mut self, submission: &NativeComposerSubmission)
        requires
            old(self).well_formed(),
        ensures
            final(self).well_formed(),
            old(self).abandoned_step(*final(self), submission@),
    {
        let lease_id: Uuid = match submission.direct_lease_id {
            Some(lease_id) => lease_id,
            None => return,
        };
        let at: usize = match self.reservations.position(lease_id) {
            Some(at) => at,
            None => return,
        };
        if self.reservations.entries[at].1.submission_id != submission.submission_id {
            return;
        }
        if self.reservations.entries[at].1.release_on_settle {
            self.remove_kept(lease_id);
            return;
        }
        let ghost before = self.reservations.entries@;
        let ghost reservation = filed(before, lease_id);
        let receipt: SubmittedLeaseReceipt = direct_receipt(submission);
        self.reservations.entries[at].1.state = DirectSendState::SubmissionAbandoned { receipt };
        proof {
            let next = reservation.in_state(DirectSendState::SubmissionAbandoned { receipt });
            refiled_keeps_others(before, lease_id, next);
            assert(self.reservations.entries@ =~= refiled(before, lease_id, next));
        }
    }
}

/// The message that a state has, or may have, sent.
pub open spec fn sent_receipt(state: DirectSendState) -> Option<SubmittedLeaseReceipt> {
    match state {
        DirectSendState::Reserved => None,
        DirectSendState::Dispatching { receipt } => Some(receipt),
        DirectSendState::Resolved { result, sent } => if result == WireResult::Unknown {
            sent
        } else {
            None
        },
        DirectSendState::SubmissionPending { receipt } => Some(receipt),
        DirectSendState::SubmittedIntact { receipt } => Some(receipt),
        DirectSendState::SubmissionAbandoned { receipt } => Some(receipt),
        DirectSendState::CorrectionPending { receipt, .. } => Some(receipt),
    }
}

/// A state after its thread was rolled back to messages among which `surviving` are ours: a
/// message that did not survive is abandoned, one that did is in model history.
pub open spec fn rolled_state(state: DirectSendState, surviving: Seq<Uuid>) -> DirectSendState {
    match sent_receipt(state) {
        None => state,
        Some(receipt) => if !surviving.contains(receipt.submission_id) {
            DirectSendState::SubmissionAbandoned { receipt }
        } else if state is CorrectionPending {
            state
        } else {
            DirectSendState::SubmittedIntact { receipt }
        },
    }
}

/// A reservation after `thread_id` was rolled back.
pub open spec fn rolled_reservation(
    reservation: DirectSendReservation,
    thread_id: Seq<char>,
    surviving: Seq<Uuid>,
) -> DirectSendReservation {
    if reservation.thread_id@ == thread_id {
        reservation.in_state(rolled_state(reservation.state, surviving))
    } else {
        reservation
    }
}

/// Every reservation after `thread_id` was rolled back.
pub open spec fn rolled_entries(
    entries: Seq<(Uuid, DirectSendReservation)>,
    thread_id: Seq<char>,
    surviving: Seq<Uuid>,
) -> Seq<(Uuid, DirectSendReservation)> {
    entries.map_values(
        |entry: (Uuid, DirectSendReservation)|
            (entry.0, rolled_reservation(entry.1, thread_id, surviving)),
    )
}

/// The reservation of a thread that was rolled back was let go, and its message has settled.
pub open spec fn released_by_rollback(thread_id: Seq<char>) -> spec_fn(
    DirectSendReservation,
) -> bool {
    |reservation: DirectSendReservation|
        reservation.thread_id@ == thread_id && reservation.release_on_settle && (
        reservation.state is SubmittedIntact || reservation.state is SubmissionAbandoned)
}

fn copy_sent_receipt(state: &DirectSendState) -> (sent: Option<SubmittedLeaseReceipt>)
    ensures
        sent == sent_receipt(*state),
{
    match state {
        DirectSendState::Reserved => None,
        DirectSendState::Dispatching { receipt } => Some(receipt.copied()),
        DirectSendState::Resolved { result, sent } => if *result == WireResult::Unknown {
            match sent {
                Some(receipt) => Some(receipt.copied()),
                None => None,
            }
        } else {
            None
        },
        DirectSendState::SubmissionPending { receipt } => Some(receipt.copied()),
        DirectSendState::SubmittedIntact { receipt } => Some(receipt.copied()),
        DirectSendState::SubmissionAbandoned { receipt } => Some(receipt.copied()),
        DirectSendState::CorrectionPending { receipt, .. } => Some(receipt.copied()),
    }
}

impl DirectSendReservations {
    /// What `note_thread_rolled_back` changes.
    pub open spec fn rollback_step(
        self,
        after: Self,
        thread_id: Seq<char>,
        surviving: Seq<Uuid>,
    ) -> bool {
        &&& after.unknown_acknowledged == self.unknown_acknowledged
        &&& ({
            let rolled = rolled_entries(
                self.reservations.entries@,
                thread_id,
                surviving,
            );
            let released = released_by_rollback(thread_id);
            &&& after.reservations.entries@ == retained(rolled, released)
            &&& after.kept@ == noted_all(
                self.kept@,
                dropped_ids(rolled, released),
                MAX_DIRECT_SEND_KEEP_TOMBSTONES as int,
            )
        })
    }

    /// Notes that a thread was rolled back, and which of our messages survived that.
    pub fn note_thread_rolled_back(
        &mut self,
        thread_id: &str,
        surviving_submission_ids: &Vec<Uuid>,
    )
        requires
            old(self).well_formed(),
        ensures
            final(self).well_formed(),
            old(self).rollback_step(*final(self), thread_id@, surviving_submission_ids@),
    {
        let ghost before = self.reservations.entries@;
        let ghost rolled = rolled_entries(before, thread_id@, surviving_submission_ids@);
        let ghost released = released_by_rollback(thread_id@);
        let mut i: usize = 0;
        while i < self.reservations.entries.len()
            invariant
                before == old(self).reservations.entries@,
                rolled == rolled_entries(before, thread_id@, surviving_submission_ids@),
                self.kept == old(self).kept,
                self.unknown_acknowledged == old(self).unknown_acknowledged,
                i <= self.reservations.entries@.len() == before.len(),
                self.reservations.entries@ =~= rolled.take(i as int) + before.subrange(
                    i as int,
                    before.len() as int,
                ),
            decreases self.reservations.entries@.len() - i,
        {
            assert(self.reservations.entries@[i as int] == before[i as int]);
            assert(rolled[i as int] == (
                before[i as int].0,
                rolled_reservation(before[i as int].1, thread_id@, surviving_submission_ids@),
            ));
            if same_text(self.reservations.entries[i].1.thread_id.as_str(), thread_id) {
                if let Some(receipt) = copy_sent_receipt(&self.reservations.entries[i].1.state) {
                    if !lists(surviving_submission_ids, receipt.submission_id) {
                        self.reservations.entries[i].1.state =
                        DirectSendState::SubmissionAbandoned { receipt };
                    } else if !matches!(
                        self.reservations.entries[i].1.state,
                        DirectSendState::CorrectionPending { .. }
                    ) {
                        self.reservations.entries[i].1.state = DirectSendState::SubmittedIntact {
                            receipt,
                        };
                    }
                }
            }
            i += 1;
        }
        assert(self.reservations.entries@ =~= rolled);
        proof {
            assert forall|a: int, b: int| 0 <= a < b < rolled.len() implies (
            #[trigger] rolled[a]).0 != (#[trigger] rolled[b]).0 by {
                assert(before[a].0 != before[b].0);
            }
        }
        let total: usize = self.reservations.entries.len();
        let mut kept_on: usize = 0;
        let ghost mut seen: int = 0;
        assert(rolled.take(0) =~= Seq::<(Uuid, DirectSendReservation)>::empty());
        while kept_on < self.reservations.entries.len()
            invariant
                distinct(rolled),
                rolled.len() <= MAX_DIRECT_SEND_RESERVATIONS,
                released == released_by_rollback(thread_id@),
                self.kept@.no_duplicates(),
                self.kept@.len() <= MAX_DIRECT_SEND_KEEP_TOMBSTONES,
                self.unknown_acknowledged == old(self).unknown_acknowledged,
                0 <= seen <= rolled.len(),
                kept_on <= self.reservations.entries@.len(),
                kept_on == retained(rolled.take(seen), released).len(),
                self.reservations.entries@ =~= retained(rolled.take(seen), released)
                    + rolled.subrange(seen, rolled.len() as int),
                self.kept@ == noted_all(
                    old(self).kept@,
                    dropped_ids(rolled.take(seen), released),
                    MAX_DIRECT_SEND_KEEP_TOMBSTONES as int,
                ),
            decreases rolled.len() - seen,
        {
            proof {
                assert(self.reservations.entries@[kept_on as int] == rolled[seen]);
                assert(rolled.take(seen + 1).drop_last() =~= rolled.take(seen));
                assert(rolled.take(seen + 1).last() == rolled[seen]);
            }
            let let_go: bool = same_text(
                self.reservations.entries[kept_on].1.thread_id.as_str(),
                thread_id,
            ) && self.reservations.entries[kept_on].1.release_on_settle && matches!(
                self.reservations.entries[kept_on].1.state,
                DirectSendState::SubmittedIntact { .. }
                    | DirectSendState::SubmissionAbandoned { .. }
            );
            if let_go {
                let (lease_id, _reservation) = self.reservations.entries.remove(kept_on);
                note_retired(&mut self.kept, lease_id, MAX_DIRECT_SEND_KEEP_TOMBSTONES);
                proof {
                    let ids = dropped_ids(rolled.take(seen + 1), released);
                    assert(ids.drop_last() =~= dropped_ids(rolled.take(seen), released));
                }
            } else {
                kept_on += 1;
            }
            proof {
                seen = seen + 1;
            }
        }
        proof {
            assert(seen == rolled.len());
            assert(rolled.take(seen) =~= rolled);
            retained_are(rolled, released);
            assert(self.reservations.entries@ =~= retained(rolled, released));
            same_places(before, rolled);
            rolled_back_logs(old(self).kept@, rolled, released);
            assert forall|id: Uuid| #[trigger] holds(self.reservations.entries@, id) implies
                holds(before, id) by {
                let left = retained(rolled, released);
                let at = index_of(left, id);
                assert(rolled.contains(left[at]));
                let from = choose|k: int| 0 <= k < rolled.len() && rolled[k] == left[at];
                assert(rolled[from].0 == id);
                assert(holds(rolled, id));
            }
        }
    }
}

/// What is released is noted as kept, and nothing that is still held is.
pub proof fn rolled_back_logs(
    kept: Seq<Uuid>,
    entries: Seq<(Uuid, DirectSendReservation)>,
    released: spec_fn(DirectSendReservation) -> bool,
)
    requires
        distinct(entries),
        entries.len() <= MAX_DIRECT_SEND_RESERVATIONS,
        kept.len() <= MAX_DIRECT_SEND_KEEP_TOMBSTONES,
        forall|id: Uuid| #[trigger] holds(entries, id) ==> !kept.contains(id),
    ensures
        ({
            let ids = dropped_ids(entries, released);
            let log = noted_all(kept, ids, MAX_DIRECT_SEND_KEEP_TOMBSTONES as int);
            &&& forall|id: Uuid| #[trigger] ids.contains(id) ==> log.contains(id)
            &&& forall|id: Uuid| #[trigger]
                holds(retained(entries, released), id) ==> !log.contains(id)
        }),
{
    let ids = dropped_ids(entries, released);
    let limit = MAX_DIRECT_SEND_KEEP_TOMBSTONES as int;
    let log = noted_all(kept, ids, limit);
    dropped_are(entries, released);
    retained_are(entries, released);
    noted_all_are(kept, ids, limit);
    let all = kept + ids;
    assert forall|id: Uuid| #[trigger] ids.contains(id) implies log.contains(id) by {
        let k = choose|k: int| 0 <= k < ids.len() && ids[k] == id;
        assert(log[k + log.len() - ids.len()] == id);
    }
    assert forall|id: Uuid| #[trigger] holds(retained(entries, released), id) implies !log.contains(
        id,
    ) by {
        let left = retained(entries, released);
        let at = index_of(left, id);
        assert(entries.contains(left[at]));
        let from = choose|k: int| 0 <= k < entries.len() && entries[k] == left[at];
        assert(entries[from].0 == id);
        assert(holds(entries, id));
        if log.contains(id) {
            let k = choose|k: int| 0 <= k < log.len() && log[k] == id;
            let place = k + all.len() - log.len();
            if place < kept.len() {
                assert(kept[place] == id);
            } else {
                assert(ids[place - kept.len()] == id);
                assert(ids.contains(id));
            }
        }
    }
}

/// How a finished correction is answered.
pub open spec fn correction_result(outcome: CorrectionDispatchOutcome) -> WireResult {
    match outcome {
        CorrectionDispatchOutcome::Accepted => WireResult::CorrectionQueued,
        CorrectionDispatchOutcome::NotApplied => refused(ErrorCode::CorrectionUnavailable),
        CorrectionDispatchOutcome::Unknown => WireResult::CorrectionPending,
    }
}

/// How a finished dispatch is answered.
pub open spec fn submission_result(outcome: SubmissionDispatchOutcome) -> WireResult {
    match outcome {
        SubmissionDispatchOutcome::Accepted => WireResult::SendAccepted,
        SubmissionDispatchOutcome::AcceptedButUncommitted => WireResult::Unknown,
        SubmissionDispatchOutcome::Unknown => WireResult::Unknown,
        SubmissionDispatchOutcome::NotApplied(code) => refused(code),
    }
}

/// A reservation as it is made: nothing is latched and nothing has been sent.
pub open spec fn is_fresh_reservation(
    reservation: DirectSendReservation,
    thread_id: Seq<char>,
    user_chronology_epoch: u64,
) -> bool {
    &&& reservation.thread_id@ == thread_id
    &&& reservation.user_chronology_epoch == user_chronology_epoch
    &&& is_version_4(reservation.submission_id)
    &&& reservation.content_hash is None
    &&& !reservation.release_on_settle
    &&& reservation.state is Reserved
}

/// What is in none of three lists is not in the three together.
pub proof fn concat_contains(a: Seq<Uuid>, b: Seq<Uuid>, c: Seq<Uuid>, id: Uuid)
    ensures
        (a + b + c).contains(id) == (a.contains(id) || b.contains(id) || c.contains(id)),
{
    let all = a + b + c;
    if a.contains(id) {
        assert(all[a.index_of(id)] == id);
    }
    if b.contains(id) {
        assert(all[a.len() + b.index_of(id)] == id);
    }
    if c.contains(id) {
        assert(all[a.len() + b.len() + c.index_of(id)] == id);
    }
    if all.contains(id) {
        let i = all.index_of(id);
        if i < a.len() {
            assert(a[i] == id);
        } else if i < a.len() + b.len() {
            assert(b[i - a.len()] == id);
        } else {
            assert(c[i - a.len() - b.len()] == id);
        }
    }
}

/// Copies identifiers.
pub fn copy_ids(ids: &Vec<Uuid>) -> (copy: Vec<Uuid>)
    ensures
        copy@ == ids@,
{
    let mut copy: Vec<Uuid> = Vec::new();
    let mut i: usize = 0;
    while i < ids.len()
        invariant
            i <= ids@.len(),
            copy@ == ids@.take(i as int),
        decreases ids@.len() - i,
    {
        copy.push(ids[i]);
        assert(copy@ =~= ids@.take(i as int + 1));
        i += 1;
    }
    assert(copy@ =~= ids@);
    copy
}

fn no_effect(result: &WireResult) -> (none: bool)
    ensures
        none == had_no_effect(*result),
{
    matches!(result, WireResult::Error { outcome: MutationOutcome::NotApplied, .. })
}

fn terminal(state: &DirectSendState) -> (is: bool)
    ensures
        is == is_terminal(*state),
{
    match state {
        DirectSendState::SubmissionAbandoned { .. } => true,
        DirectSendState::Resolved { result, .. } => no_effect(result),
        _ => false,
    }
}

} // verus!
