//! What becomes of leases once their text left the composer.
use crate::control::{ComposerControlState, ControlView};
use crate::digest::{text_digest, text_hash};
use crate::direct_send::{
    correction_result, dispatches, prepare_correction, submission_result, DirectPreparedSubmission,
    DirectSendReservations,
};
use crate::commands::PreparedSubmission;
use crate::fence::{FenceId, SubmitFence};
use crate::ids::{lists, Uuid};
use crate::lease::{
    relinquish_unknown_submit, resolved, Capture, ExternalLease, ExternalLeaseState, SubmitAttempt,
};
use crate::ledger::{
    holds, index_of, refiled, refiled_keeps_others, retained, retained_are, same_places, without,
    without_keeps_others,
};
use crate::receipt::{
    CorrectionDispatchOutcome, CorrectionOrigin, CorrectionProposal, PreparedCorrection,
    ReplaceOutcome, SubmissionDispatchOutcome, SubmittedLeaseReceipt,
};
use crate::submission::{ComposerLeaseId, NativeComposerSubmission, NativeSubmittedLease};
use crate::text::{same_text, slice, text_at};
use crate::wire::{refused, ErrorCode, WireResult};
use std::ops::Range;
use vstd::prelude::*;
use vstd::string::*;

verus! {

impl ComposerControlState {
    /// The lease is still in the state that the proposal was made from.
    pub open spec fn awaits(self, proposal: CorrectionProposal) -> bool {
        &&& self.leased(proposal.lease_id)
        &&& self.lease(proposal.lease_id).state matches ExternalLeaseState::SubmittedIntact {
            receipt,
        }
        &&& receipt.submission_id == proposal.receipt.submission_id
    }

    /// What `admit_correction` answers and changes.
    pub open spec fn admit_step(
        self,
        after: Self,
        proposal: CorrectionProposal,
        truncated: bool,
        outcome: ReplaceOutcome,
    ) -> bool {
        if proposal.origin == CorrectionOrigin::Direct {
            &&& self.direct_sends.admit_step(after.direct_sends, proposal, truncated, outcome)
            &&& after@ == (ControlView { direct_sends: after.direct_sends@, ..self@ })
        } else if !self.awaits(proposal) {
            &&& outcome == ReplaceOutcome::Complete(refused(ErrorCode::LeaseUnavailable))
            &&& after@ == self@
        } else if truncated {
            &&& outcome == ReplaceOutcome::Complete(refused(ErrorCode::CorrectionUnavailable))
            &&& after@ == self@
        } else {
            let lease = self.lease(proposal.lease_id);
            &&& after@ == (ControlView {
                leases: refiled(
                    self@.leases,
                    proposal.lease_id,
                    lease.in_state(
                        ExternalLeaseState::CorrectionPending {
                            receipt: proposal.receipt,
                            correction_id: proposal.correction_id,
                            expected: proposal.expected,
                            replacement: proposal.replacement,
                            payload: proposal.drafts@.last(),
                        },
                    ),
                ),
                ..self@
            })
            &&& outcome matches ReplaceOutcome::Correct(correction)
            &&& dispatches(
                correction,
                proposal.lease_id,
                CorrectionOrigin::Composer,
                lease.thread_id@,
                proposal.correction_id,
                proposal.receipt,
                proposal.payload(),
            )
        }
    }

    /// Admits a proposed correction whose drafts all fit, and drops one that does not.
    pub fn admit_correction(&mut self, proposal: CorrectionProposal, truncated: bool) -> (outcome:
        ReplaceOutcome)
        requires
            old(self).well_formed(),
            proposal.drafts@.len() > 0,
        ensures
            final(self).well_formed(),
            old(self).admit_step(*final(self), proposal, truncated, outcome),
    {
        if proposal.origin == CorrectionOrigin::Direct {
            return self.direct_sends.admit_correction(proposal, truncated);
        }
        let lease_id: Uuid = proposal.lease_id;
        let at: usize = match self.leases.position(lease_id) {
            Some(at) => at,
            None => return ReplaceOutcome::Complete(
                WireResult::not_applied(ErrorCode::LeaseUnavailable),
            ),
        };
        let awaited: bool = match &self.leases.entries[at].1.state {
            ExternalLeaseState::SubmittedIntact { receipt } => receipt.submission_id
                == proposal.receipt.submission_id,
            _ => false,
        };
        if !awaited {
            return ReplaceOutcome::Complete(WireResult::not_applied(ErrorCode::LeaseUnavailable));
        }
        if truncated {
            return ReplaceOutcome::Complete(
                WireResult::not_applied(ErrorCode::CorrectionUnavailable),
            );
        }
        let ghost before = *self;
        let payload: String = proposal.drafts[proposal.drafts.len() - 1].clone();
        let correction: PreparedCorrection = prepare_correction(
            lease_id,
            CorrectionOrigin::Composer,
            self.leases.entries[at].1.thread_id.clone(),
            proposal.correction_id,
            proposal.receipt.submission_id,
            payload.clone(),
        );
        self.leases.entries[at].1.state = ExternalLeaseState::CorrectionPending {
            receipt: proposal.receipt,
            correction_id: proposal.correction_id,
            expected: proposal.expected,
            replacement: proposal.replacement,
            payload,
        };
        proof {
            let next = before.lease(lease_id).in_state(
                ExternalLeaseState::CorrectionPending {
                    receipt: proposal.receipt,
                    correction_id: proposal.correction_id,
                    expected: proposal.expected,
                    replacement: proposal.replacement,
                    payload: proposal.drafts@.last(),
                },
            );
            refiled_keeps_others(before@.leases, lease_id, next);
            assert(self@.leases =~= refiled(before@.leases, lease_id, next));
        }
        ReplaceOutcome::Correct(correction)
    }

    /// What `finish_submission` answers and changes.
    pub open spec fn finish_submission_step(
        self,
        after: Self,
        pending: PreparedSubmission,
        outcome: SubmissionDispatchOutcome,
        result: WireResult,
    ) -> bool {
        &&& result == submission_result(outcome)
        &&& after@ == if self.leased(pending.lease_id) {
            ControlView {
                leases: refiled(
                    self@.leases,
                    pending.lease_id,
                    self.lease(pending.lease_id).attempted(
                        Some(
                            SubmitAttempt::Resolved {
                                result,
                                guard: if result == WireResult::Unknown {
                                    Some(pending.fence)
                                } else {
                                    None
                                },
                            },
                        ),
                    ),
                ),
                ..self@
            }
        } else {
            self@
        }
    }

    /// Settles the dispatch of a lease. An outcome that cannot be known stays behind the fence of
    /// the dispatch.
    pub fn finish_submission(
        &mut self,
        pending: PreparedSubmission,
        outcome: SubmissionDispatchOutcome,
    ) -> (result: WireResult)
        requires
            old(self).well_formed(),
        ensures
            final(self).well_formed(),
            old(self).finish_submission_step(*final(self), pending, outcome, result),
    {
        let result: WireResult = match outcome {
            SubmissionDispatchOutcome::Accepted => WireResult::SendAccepted,
            SubmissionDispatchOutcome::AcceptedButUncommitted
            | SubmissionDispatchOutcome::Unknown => WireResult::Unknown,
            SubmissionDispatchOutcome::NotApplied(code) => WireResult::not_applied(code),
        };
        if let Some(at) = self.leases.position(pending.lease_id) {
            let ghost before = *self;
            let guard: Option<FenceId> = if result == WireResult::Unknown {
                Some(pending.fence)
            } else {
                None
            };
            let attempt = Some(SubmitAttempt::Resolved { result, guard });
            self.leases.entries[at].1.submit_attempt = attempt;
            proof {
                let next = before.lease(pending.lease_id).attempted(attempt);
                refiled_keeps_others(before@.leases, pending.lease_id, next);
                assert(self@.leases =~= refiled(before@.leases, pending.lease_id, next));
            }
        }
        result
    }

    /// What `finish_direct_submission` answers and changes.
    pub open spec fn finish_direct_submission_step(
        self,
        after: Self,
        pending: DirectPreparedSubmission,
        outcome: SubmissionDispatchOutcome,
        result: WireResult,
    ) -> bool {
        &&& self.direct_sends.finish_submission_step(
            after.direct_sends,
            pending.reservation_id,
            pending.submission.submission_id,
            outcome,
            result,
        )
        &&& after@ == (ControlView { direct_sends: after.direct_sends@, ..self@ })
    }

    /// Settles the dispatch of a reservation.
    pub fn finish_direct_submission(
        &mut self,
        pending: DirectPreparedSubmission,
        outcome: SubmissionDispatchOutcome,
    ) -> (result: WireResult)
        requires
            old(self).well_formed(),
        ensures
            final(self).well_formed(),
            old(self).finish_direct_submission_step(*final(self), pending, outcome, result),
    {
        self.direct_sends.finish_submission(
            pending.reservation_id,
            pending.submission.submission_id,
            outcome,
        )
    }

    /// Another correction than `correction_id` is pending under the lease.
    pub open spec fn is_superseded(self, lease_id: Uuid, correction_id: Uuid) -> bool {
        &&& self.leased(lease_id)
        &&& self.lease(lease_id).state matches ExternalLeaseState::CorrectionPending {
            correction_id: current,
            ..
        }
        &&& current != correction_id
    }

    /// The correction `correction_id` is pending under the lease.
    pub open spec fn is_pending_correction(self, lease_id: Uuid, correction_id: Uuid) -> bool {
        &&& self.leased(lease_id)
        &&& self.lease(lease_id).state matches ExternalLeaseState::CorrectionPending {
            correction_id: current,
            ..
        }
        &&& current == correction_id
    }

    /// What `finish_correction` answers and changes.
    pub open spec fn finish_correction_step(
        self,
        after: Self,
        lease_id: Uuid,
        origin: CorrectionOrigin,
        correction_id: Uuid,
        outcome: CorrectionDispatchOutcome,
        result: WireResult,
    ) -> bool {
        if origin == CorrectionOrigin::Direct {
            &&& self.direct_sends.finish_correction_step(
                after.direct_sends,
                lease_id,
                correction_id,
                outcome,
                result,
            )
            &&& after@ == (ControlView { direct_sends: after.direct_sends@, ..self@ })
        } else {
            &&& result == correction_result(outcome)
            &&& after@ == match outcome {
                CorrectionDispatchOutcome::Accepted => if self.is_superseded(
                    lease_id,
                    correction_id,
                ) {
                    self@
                } else {
                    ControlView { leases: without(self@.leases, lease_id), ..self@ }
                },
                CorrectionDispatchOutcome::NotApplied => if self.is_pending_correction(
                    lease_id,
                    correction_id,
                ) {
                    let lease = self.lease(lease_id);
                    ControlView {
                        leases: refiled(
                            self@.leases,
                            lease_id,
                            lease.in_state(
                                ExternalLeaseState::SubmittedIntact {
                                    receipt: lease.state->CorrectionPending_receipt,
                                },
                            ),
                        ),
                        ..self@
                    }
                } else {
                    self@
                },
                CorrectionDispatchOutcome::Unknown => self@,
            }
        }
    }

    /// Settles a dispatched correction. A completion that a newer correction superseded changes
    /// nothing.
    pub fn finish_correction(
        &mut self,
        pending: PreparedCorrection,
        outcome: CorrectionDispatchOutcome,
    ) -> (result: WireResult)
        requires
            old(self).well_formed(),
        ensures
            final(self).well_formed(),
            old(self).finish_correction_step(
                *final(self),
                pending.lease_id,
                pending.origin,
                pending.correction_id,
                outcome,
                result,
            ),
    {
        let lease_id: Uuid = pending.lease_id;
        if pending.origin == CorrectionOrigin::Direct {
            return self.direct_sends.finish_correction(lease_id, pending.correction_id, outcome);
        }
        let at: Option<usize> = self.leases.position(lease_id);
        match outcome {
            CorrectionDispatchOutcome::Accepted => {
                let superseded: bool = match at {
                    Some(at) => match &self.leases.entries[at].1.state {
                        ExternalLeaseState::CorrectionPending { correction_id, .. } => {
                            *correction_id != pending.correction_id
                        },
                        _ => false,
                    },
                    None => false,
                };
                if !superseded {
                    proof {
                        without_keeps_others(self@.leases, lease_id);
                    }
                    self.leases.remove(lease_id);
                }
                WireResult::CorrectionQueued
            },
            CorrectionDispatchOutcome::NotApplied => {
                if let Some(at) = at {
                    let state: &ExternalLeaseState = &self.leases.entries[at].1.state;
                    let receipt: Option<SubmittedLeaseReceipt> = match state {
                        ExternalLeaseState::CorrectionPending { receipt, correction_id, .. } => {
                            if *correction_id == pending.correction_id {
                                Some(receipt.copied())
                            } else {
                                None
                            }
                        },
                        _ => None,
                    };
                    if let Some(receipt) = receipt {
                        let ghost before = *self;
                        self.leases.entries[at].1.state = ExternalLeaseState::SubmittedIntact {
                            receipt,
                        };
                        proof {
                            let next = before.lease(lease_id).in_state(
                                ExternalLeaseState::SubmittedIntact { receipt },
                            );
                            refiled_keeps_others(before@.leases, lease_id, next);
                            assert(self@.leases =~= refiled(before@.leases, lease_id, next));
                        }
                    }
                }
                WireResult::not_applied(ErrorCode::CorrectionUnavailable)
            },
            CorrectionDispatchOutcome::Unknown => WireResult::CorrectionPending,
        }
    }
}

/// The range that is submitted for the composer's handle `native`: the first one that names it.
pub open spec fn submitted_range(
    leases: Seq<NativeSubmittedLease>,
    native: ComposerLeaseId,
    from: nat,
) -> Option<Range<usize>>
    decreases leases.len() - from,
{
    if from >= leases.len() {
        None
    } else if leases[from as int].native == native {
        Some(leases[from as int].range)
    } else {
        submitted_range(leases, native, from + 1)
    }
}

fn find_submitted_range(leases: &Vec<NativeSubmittedLease>, native: ComposerLeaseId) -> (range:
    Option<Range<usize>>)
    ensures
        range == submitted_range(leases@, native, 0),
{
    let mut i: usize = 0;
    while i < leases.len()
        invariant
            i <= leases@.len(),
            submitted_range(leases@, native, 0) == submitted_range(leases@, native, i as nat),
        decreases leases@.len() - i,
    {
        if leases[i].native == native {
            return Some(leases[i].range.start..leases[i].range.end);
        }
        i += 1;
    }
    None
}

/// A lease once the message `submitted_text` was handed over: a draft of that thread whose text
/// is in the message, where the message says, waits for the commit.
pub open spec fn pending_lease(
    lease: ExternalLease,
    thread_id: Seq<char>,
    submission_id: Uuid,
    submitted_text: String,
    leases: Seq<NativeSubmittedLease>,
) -> ExternalLease {
    match lease.state {
        ExternalLeaseState::Draft { native } if lease.thread_id@ == thread_id => {
            match submitted_range(leases, native, 0) {
                Some(range) => match text_at(
                    submitted_text@,
                    range.start as int,
                    range.end as int,
                ) {
                    Some(text) if text_digest(text) == lease.expected_hash => lease.in_state(
                        ExternalLeaseState::SubmissionPending {
                            receipt: SubmittedLeaseReceipt {
                                submission_id,
                                submitted_text,
                                range,
                            },
                        },
                    ),
                    _ => lease,
                },
                None => lease,
            }
        },
        _ => lease,
    }
}

/// Every lease once a message was handed over.
pub open spec fn pending_leases(
    leases: Seq<(Uuid, ExternalLease)>,
    thread_id: Seq<char>,
    submission_id: Uuid,
    submitted_text: String,
    submitted: Seq<NativeSubmittedLease>,
) -> Seq<(Uuid, ExternalLease)> {
    leases.map_values(
        |entry: (Uuid, ExternalLease)|
            (
                entry.0,
                pending_lease(entry.1, thread_id, submission_id, submitted_text, submitted),
            ),
    )
}

/// The lease was handed over with `submission_id`, in `thread_id`, and not abandoned.
pub open spec fn is_committed_by(
    lease: ExternalLease,
    thread_id: Seq<char>,
    submission_id: Uuid,
) -> bool {
    &&& lease.thread_id@ == thread_id
    &&& !(lease.state is SubmissionAbandoned)
    &&& lease.receipt() is Some
    &&& lease.receipt()->0.submission_id == submission_id
}

/// A lease once `submission_id` is in model history.
pub open spec fn committed_lease(
    lease: ExternalLease,
    thread_id: Seq<char>,
    submission_id: Uuid,
) -> ExternalLease {
    if !is_committed_by(lease, thread_id, submission_id) {
        lease
    } else {
        match lease.state {
            ExternalLeaseState::SubmissionPending { receipt } => lease.in_state(
                ExternalLeaseState::SubmittedIntact { receipt },
            ).relinquished(),
            _ => lease.relinquished(),
        }
    }
}

/// Every lease once `submission_id` is in model history.
pub open spec fn committed_leases(
    leases: Seq<(Uuid, ExternalLease)>,
    thread_id: Seq<char>,
    submission_id: Uuid,
) -> Seq<(Uuid, ExternalLease)> {
    leases.map_values(
        |entry: (Uuid, ExternalLease)|
            (entry.0, committed_lease(entry.1, thread_id, submission_id)),
    )
}

/// The fences once the first `count` leases are committed.
pub open spec fn committed_fences(
    leases: Seq<(Uuid, ExternalLease)>,
    fences: Seq<SubmitFence>,
    thread_id: Seq<char>,
    submission_id: Uuid,
    count: int,
) -> Seq<SubmitFence>
    decreases count,
{
    if count <= 0 {
        fences
    } else {
        let earlier = committed_fences(leases, fences, thread_id, submission_id, count - 1);
        if is_committed_by(leases[count - 1].1, thread_id, submission_id) {
            leases[count - 1].1.fences_relinquished(earlier)
        } else {
            earlier
        }
    }
}

/// A lease once `submission_id` will not come into model history.
pub open spec fn abandoned_lease(
    lease: ExternalLease,
    thread_id: Seq<char>,
    submission_id: Uuid,
) -> ExternalLease {
    match lease.state {
        ExternalLeaseState::SubmissionPending { receipt } if lease.thread_id@ == thread_id
            && receipt.submission_id == submission_id => lease.in_state(
            ExternalLeaseState::SubmissionAbandoned { receipt },
        ).attempted(resolved(WireResult::SubmissionAbandoned)),
        _ => lease,
    }
}

/// Every lease once `submission_id` will not come into model history.
pub open spec fn abandoned_leases(
    leases: Seq<(Uuid, ExternalLease)>,
    thread_id: Seq<char>,
    submission_id: Uuid,
) -> Seq<(Uuid, ExternalLease)> {
    leases.map_values(
        |entry: (Uuid, ExternalLease)|
            (entry.0, abandoned_lease(entry.1, thread_id, submission_id)),
    )
}

/// A lease after `thread_id` was rolled back to messages among which `surviving` are ours.
pub open spec fn rolled_lease(
    lease: ExternalLease,
    thread_id: Seq<char>,
    surviving: Seq<Uuid>,
) -> ExternalLease {
    match lease.receipt() {
        Some(receipt) if lease.thread_id@ == thread_id => if !surviving.contains(
            receipt.submission_id,
        ) {
            lease.in_state(ExternalLeaseState::SubmissionAbandoned { receipt }).attempted(
                resolved(WireResult::SubmissionAbandoned),
            )
        } else if lease.state is SubmissionPending {
            lease.in_state(ExternalLeaseState::SubmittedIntact { receipt })
        } else {
            lease
        },
        _ => lease,
    }
}

/// Every lease after `thread_id` was rolled back.
pub open spec fn rolled_leases(
    leases: Seq<(Uuid, ExternalLease)>,
    thread_id: Seq<char>,
    surviving: Seq<Uuid>,
) -> Seq<(Uuid, ExternalLease)> {
    leases.map_values(
        |entry: (Uuid, ExternalLease)| (entry.0, rolled_lease(entry.1, thread_id, surviving)),
    )
}

/// A lease of a thread that was rolled back whose text is not in model history: it goes.
pub open spec fn lost_by_rollback(thread_id: Seq<char>) -> spec_fn(ExternalLease) -> bool {
    |lease: ExternalLease|
        lease.thread_id@ == thread_id && (lease.state is Draft || lease.state is SubmissionPending)
}

/// A capture of the thread.
pub open spec fn captured_in(thread_id: Seq<char>) -> spec_fn(Capture) -> bool {
    |capture: Capture| capture.thread_id@ == thread_id
}

impl ComposerControlState {
    /// What `note_submission_pending_by_native` changes.
    pub open spec fn pending_by_native_step(
        self,
        after: Self,
        thread_id: Seq<char>,
        submission_id: Uuid,
        submitted_text: String,
        native_leases: Seq<NativeSubmittedLease>,
    ) -> bool {
        &&& after.direct_sends == self.direct_sends
        &&& after@ == (ControlView {
            leases: pending_leases(
                self@.leases,
                thread_id,
                submission_id,
                submitted_text,
                native_leases,
            ),
            ..self@
        })
    }

    /// Notes that a message was handed over to the app-server.
    pub fn note_submission_pending_by_native(
        &mut self,
        thread_id: &str,
        submission_id: Uuid,
        submitted_text: &String,
        native_leases: &Vec<NativeSubmittedLease>,
    )
        requires
            old(self).well_formed(),
        ensures
            final(self).well_formed(),
            old(self).pending_by_native_step(
                *final(self),
                thread_id@,
                submission_id,
                *submitted_text,
                native_leases@,
            ),
    {
        let ghost before = *self;
        let ghost leases = self@.leases;
        let ghost pending = pending_leases(
            leases,
            thread_id@,
            submission_id,
            *submitted_text,
            native_leases@,
        );
        let mut i: usize = 0;
        while i < self.leases.entries.len()
            invariant
                before.well_formed(),
                leases == before@.leases,
                pending == pending_leases(
                    leases,
                    thread_id@,
                    submission_id,
                    *submitted_text,
                    native_leases@,
                ),
                self@ == (ControlView { leases: self@.leases, ..before@ }),
                self.direct_sends == before.direct_sends,
                i <= self@.leases.len() == leases.len(),
                self@.leases =~= pending.take(i as int) + leases.subrange(
                    i as int,
                    leases.len() as int,
                ),
            decreases self@.leases.len() - i,
        {
            assert(self@.leases[i as int] == leases[i as int]);
            let lease: &ExternalLease = &self.leases.entries[i].1;
            let mut receipt: Option<SubmittedLeaseReceipt> = None;
            if same_text(lease.thread_id.as_str(), thread_id) {
                if let ExternalLeaseState::Draft { native } = &lease.state {
                    if let Some(range) = find_submitted_range(native_leases, *native) {
                        if let Some(text) = slice(
                            submitted_text.as_str(),
                            range.start,
                            range.end,
                        ) {
                            if text_hash(text) == lease.expected_hash {
                                receipt = Some(
                                    SubmittedLeaseReceipt {
                                        submission_id,
                                        submitted_text: submitted_text.clone(),
                                        range,
                                    },
                                );
                            }
                        }
                    }
                }
            }
            if let Some(receipt) = receipt {
                self.leases.entries[i].1.state = ExternalLeaseState::SubmissionPending { receipt };
            }
            i += 1;
        }
        assert(self@.leases =~= pending);
        proof {
            same_places(leases, self@.leases);
        }
    }

    /// What `note_submission_committed_id` changes.
    pub open spec fn committed_id_step(
        self,
        after: Self,
        thread_id: Seq<char>,
        submission_id: Uuid,
    ) -> bool {
        &&& after.direct_sends == self.direct_sends
        &&& after@ == (ControlView {
            leases: committed_leases(self@.leases, thread_id, submission_id),
            fences: committed_fences(
                self@.leases,
                self@.fences,
                thread_id,
                submission_id,
                self@.leases.len() as int,
            ),
            ..self@
        })
    }

    /// Notes that `submission_id` is in model history.
    pub fn note_submission_committed_id(&mut self, thread_id: &str, submission_id: Uuid)
        requires
            old(self).well_formed(),
        ensures
            final(self).well_formed(),
            old(self).committed_id_step(*final(self), thread_id@, submission_id),
    {
        let ghost before = *self;
        let ghost leases = self@.leases;
        let ghost committed = committed_leases(leases, thread_id@, submission_id);
        let mut i: usize = 0;
        while i < self.leases.entries.len()
            invariant
                before.well_formed(),
                leases == before@.leases,
                committed == committed_leases(leases, thread_id@, submission_id),
                self@ == (ControlView {
                    leases: self@.leases,
                    fences: self@.fences,
                    ..before@
                }),
                self.direct_sends == before.direct_sends,
                i <= self@.leases.len() == leases.len(),
                self@.leases =~= committed.take(i as int) + leases.subrange(
                    i as int,
                    leases.len() as int,
                ),
                self@.fences == committed_fences(
                    leases,
                    before@.fences,
                    thread_id@,
                    submission_id,
                    i as int,
                ),
            decreases self@.leases.len() - i,
        {
            assert(self@.leases[i as int] == leases[i as int]);
            if same_text(self.leases.entries[i].1.thread_id.as_str(), thread_id) {
                let mut settled: Option<SubmittedLeaseReceipt> = None;
                let matching: bool = match &self.leases.entries[i].1.state {
                    ExternalLeaseState::SubmissionPending { receipt } => {
                        if receipt.submission_id == submission_id {
                            settled = Some(receipt.copied());
                        }
                        receipt.submission_id == submission_id
                    },
                    ExternalLeaseState::SubmittedIntact { receipt } => receipt.submission_id
                        == submission_id,
                    ExternalLeaseState::CorrectionPending { receipt, .. } => receipt.submission_id
                        == submission_id,
                    ExternalLeaseState::Draft { .. }
                    | ExternalLeaseState::SubmissionAbandoned { .. } => false,
                };
                if let Some(receipt) = settled {
                    self.leases.entries[i].1.state = ExternalLeaseState::SubmittedIntact { receipt };
                }
                if matching {
                    relinquish_unknown_submit(&mut self.leases.entries[i].1, &mut self.fences);
                }
            }
            i += 1;
        }
        assert(self@.leases =~= committed);
        proof {
            same_places(leases, self@.leases);
        }
    }

    /// What `note_submission_abandoned_id` changes.
    pub open spec fn abandoned_id_step(
        self,
        after: Self,
        thread_id: Seq<char>,
        submission_id: Uuid,
    ) -> bool {
        &&& after.direct_sends == self.direct_sends
        &&& after@ == (ControlView {
            leases: abandoned_leases(self@.leases, thread_id, submission_id),
            ..self@
        })
    }

    /// Notes that `submission_id` will not come into model history.
    pub fn note_submission_abandoned_id(&mut self, thread_id: &str, submission_id: Uuid)
        requires
            old(self).well_formed(),
        ensures
            final(self).well_formed(),
            old(self).abandoned_id_step(*final(self), thread_id@, submission_id),
    {
        let ghost before = *self;
        let ghost leases = self@.leases;
        let ghost abandoned = abandoned_leases(leases, thread_id@, submission_id);
        let mut i: usize = 0;
        while i < self.leases.entries.len()
            invariant
                before.well_formed(),
                leases == before@.leases,
                abandoned == abandoned_leases(leases, thread_id@, submission_id),
                self@ == (ControlView { leases: self@.leases, ..before@ }),
                self.direct_sends == before.direct_sends,
                i <= self@.leases.len() == leases.len(),
                self@.leases =~= abandoned.take(i as int) + leases.subrange(
                    i as int,
                    leases.len() as int,
                ),
            decreases self@.leases.len() - i,
        {
            assert(self@.leases[i as int] == leases[i as int]);
            let mut lost: Option<SubmittedLeaseReceipt> = None;
            if same_text(self.leases.entries[i].1.thread_id.as_str(), thread_id) {
                if let ExternalLeaseState::SubmissionPending { receipt } =
                    &self.leases.entries[i].1.state {
                    if receipt.submission_id == submission_id {
                        lost = Some(receipt.copied());
                    }
                }
            }
            if let Some(receipt) = lost {
                self.leases.entries[i].1.state = ExternalLeaseState::SubmissionAbandoned {
                    receipt,
                };
                self.leases.entries[i].1.submit_attempt = Some(
                    SubmitAttempt::Resolved { result: WireResult::SubmissionAbandoned, guard: None },
                );
            }
            i += 1;
        }
        assert(self@.leases =~= abandoned);
        proof {
            same_places(leases, self@.leases);
        }
    }

    /// The leases once `submission` was handed over to the app-server.
    pub open spec fn leases_pending(self, submission: NativeComposerSubmission) -> Seq<
        (Uuid, ExternalLease),
    > {
        pending_leases(
            self@.leases,
            submission.thread_id@,
            submission.submission_id,
            submission.submitted_text,
            submission.leases@,
        )
    }

    /// What `note_submission_pending` changes.
    pub open spec fn pending_step(self, after: Self, submission: NativeComposerSubmission) -> bool {
        &&& self.direct_sends.pending_step(after.direct_sends, submission@)
        &&& after@ == (ControlView {
            leases: self.leases_pending(submission),
            direct_sends: after.direct_sends@,
            ..self@
        })
    }

    /// Notes that a submission was handed over to the app-server.
    pub fn note_submission_pending(&mut self, submission: &NativeComposerSubmission)
        requires
            old(self).well_formed(),
        ensures
            final(self).well_formed(),
            old(self).pending_step(*final(self), *submission),
    {
        self.direct_sends.note_submission_pending(submission);
        self.note_submission_pending_by_native(
            submission.thread_id.as_str(),
            submission.submission_id,
            &submission.submitted_text,
            &submission.leases,
        );
    }

    /// What `note_submission_committed` changes.
    pub open spec fn committed_step(
        self,
        after: Self,
        submission: NativeComposerSubmission,
    ) -> bool {
        &&& exists|pending: DirectSendReservations|
            #[trigger] self.direct_sends.pending_step(pending, submission@) && pending.well_formed()
                && pending.committed_step(after.direct_sends, submission@)
        &&& after@ == (ControlView {
            leases: committed_leases(
                self.leases_pending(submission),
                submission.thread_id@,
                submission.submission_id,
            ),
            fences: committed_fences(
                self.leases_pending(submission),
                self@.fences,
                submission.thread_id@,
                submission.submission_id,
                self.leases_pending(submission).len() as int,
            ),
            direct_sends: after.direct_sends@,
            ..self@
        })
    }

    /// Notes that a submission is in model history.
    pub fn note_submission_committed(&mut self, submission: &NativeComposerSubmission)
        requires
            old(self).well_formed(),
        ensures
            final(self).well_formed(),
            old(self).committed_step(*final(self), *submission),
    {
        self.note_submission_pending(submission);
        let ghost pending = self.direct_sends;
        self.direct_sends.note_submission_committed(submission);
        assert(old(self).direct_sends.pending_step(pending, submission@));
        self.note_submission_committed_id(
            submission.thread_id.as_str(),
            submission.submission_id,
        );
    }

    /// What `note_submission_abandoned` changes.
    pub open spec fn abandoned_step(
        self,
        after: Self,
        submission: NativeComposerSubmission,
    ) -> bool {
        &&& exists|pending: DirectSendReservations|
            #[trigger] self.direct_sends.pending_step(pending, submission@) && pending.well_formed()
                && pending.abandoned_step(after.direct_sends, submission@)
        &&& after@ == (ControlView {
            leases: abandoned_leases(
                self.leases_pending(submission),
                submission.thread_id@,
                submission.submission_id,
            ),
            direct_sends: after.direct_sends@,
            ..self@
        })
    }

    /// Notes that a submission will not come into model history.
    pub fn note_submission_abandoned(&mut self, submission: &NativeComposerSubmission)
        requires
            old(self).well_formed(),
        ensures
            final(self).well_formed(),
            old(self).abandoned_step(*final(self), *submission),
    {
        self.note_submission_pending(submission);
        let ghost pending = self.direct_sends;
        self.direct_sends.note_submission_abandoned(submission);
        assert(old(self).direct_sends.pending_step(pending, submission@));
        self.note_submission_abandoned_id(
            submission.thread_id.as_str(),
            submission.submission_id,
        );
    }

    /// Drops the captures of `thread_id`.
    fn drop_captures(&mut self, thread_id: &str)
        requires
            old(self).well_formed(),
        ensures
            final(self).well_formed(),
            final(self).direct_sends == old(self).direct_sends,
            final(self)@ == (ControlView {
                captures: retained(old(self)@.captures, captured_in(thread_id@)),
                ..old(self)@
            }),
    {
        let ghost before = *self;
        let ghost captures = self@.captures;
        let ghost dropped = captured_in(thread_id@);
        let mut kept_on: usize = 0;
        let ghost mut seen: int = 0;
        assert(captures.take(0) =~= Seq::<(Uuid, Capture)>::empty());
        while kept_on < self.captures.entries.len()
            invariant
                before.well_formed(),
                captures == before@.captures,
                dropped == captured_in(thread_id@),
                self@ == (ControlView { captures: self@.captures, ..before@ }),
                self.direct_sends == before.direct_sends,
                0 <= seen <= captures.len(),
                kept_on <= self@.captures.len(),
                kept_on == retained(captures.take(seen), dropped).len(),
                self@.captures =~= retained(captures.take(seen), dropped) + captures.subrange(
                    seen,
                    captures.len() as int,
                ),
            decreases captures.len() - seen,
        {
            proof {
                assert(self@.captures[kept_on as int] == captures[seen]);
                assert(captures.take(seen + 1).drop_last() =~= captures.take(seen));
                assert(captures.take(seen + 1).last() == captures[seen]);
            }
            if same_text(self.captures.entries[kept_on].1.thread_id.as_str(), thread_id) {
                let _capture = self.captures.entries.remove(kept_on);
            } else {
                kept_on += 1;
            }
            proof {
                seen = seen + 1;
            }
        }
        proof {
            assert(captures.take(seen) =~= captures);
            retained_are(captures, dropped);
            assert(self@.captures =~= retained(captures, dropped));
        }
    }

    /// Drops the leases of `thread_id` whose text is not in model history.
    fn drop_leases(&mut self, thread_id: &str)
        requires
            old(self).well_formed(),
        ensures
            final(self).well_formed(),
            final(self).direct_sends == old(self).direct_sends,
            final(self)@ == (ControlView {
                leases: retained(old(self)@.leases, lost_by_rollback(thread_id@)),
                ..old(self)@
            }),
    {
        let ghost before = *self;
        let ghost leases = self@.leases;
        let ghost dropped = lost_by_rollback(thread_id@);
        let mut kept_on: usize = 0;
        let ghost mut seen: int = 0;
        assert(leases.take(0) =~= Seq::<(Uuid, ExternalLease)>::empty());
        while kept_on < self.leases.entries.len()
            invariant
                before.well_formed(),
                leases == before@.leases,
                dropped == lost_by_rollback(thread_id@),
                self@ == (ControlView { leases: self@.leases, ..before@ }),
                self.direct_sends == before.direct_sends,
                0 <= seen <= leases.len(),
                kept_on <= self@.leases.len(),
                kept_on == retained(leases.take(seen), dropped).len(),
                self@.leases =~= retained(leases.take(seen), dropped) + leases.subrange(
                    seen,
                    leases.len() as int,
                ),
            decreases leases.len() - seen,
        {
            proof {
                assert(self@.leases[kept_on as int] == leases[seen]);
                assert(leases.take(seen + 1).drop_last() =~= leases.take(seen));
                assert(leases.take(seen + 1).last() == leases[seen]);
            }
            if same_text(self.leases.entries[kept_on].1.thread_id.as_str(), thread_id) && matches!(
                self.leases.entries[kept_on].1.state,
                ExternalLeaseState::Draft { .. } | ExternalLeaseState::SubmissionPending { .. }
            ) {
                let _lease = self.leases.entries.remove(kept_on);
            } else {
                kept_on += 1;
            }
            proof {
                seen = seen + 1;
            }
        }
        proof {
            assert(leases.take(seen) =~= leases);
            retained_are(leases, dropped);
            assert(self@.leases =~= retained(leases, dropped));
            assert forall|id: Uuid| #[trigger] holds(self@.leases, id) implies holds(leases, id) by {
                let at = index_of(self@.leases, id);
                assert(leases.contains(retained(leases, dropped)[at]));
                let from = choose|k: int| 0 <= k < leases.len() && leases[k] == self@.leases[at];
                assert(leases[from].0 == id);
            }
        }
    }

    /// What `note_thread_rolled_back` changes.
    pub open spec fn rollback_step(
        self,
        after: Self,
        thread_id: Seq<char>,
        surviving: Seq<Uuid>,
    ) -> bool {
        &&& self.direct_sends.rollback_step(after.direct_sends, thread_id, surviving)
        &&& after@ == (ControlView {
            captures: retained(self@.captures, captured_in(thread_id)),
            leases: retained(
                rolled_leases(self@.leases, thread_id, surviving),
                lost_by_rollback(thread_id),
            ),
            direct_sends: after.direct_sends@,
            ..self@
        })
    }

    /// Notes that a thread was rolled back, and which of our messages survived that. What was
    /// captured or drafted for the thread goes; a message that did not survive is abandoned.
    pub fn note_thread_rolled_back(
        &mut self,
        thread_id: &str,
        surviving_submission_ids: &Vec<Uuid>,
    )
        requires
            old(self).well_formed(),
        ensures
            final(self).well_formed(),
            old(self).rollback_step(*final(self), thread_id@, surviving_submission_ids@),
    {
        self.direct_sends.note_thread_rolled_back(thread_id, surviving_submission_ids);
        self.drop_captures(thread_id);
        let ghost before = *self;
        let ghost leases = self@.leases;
        let ghost rolled = rolled_leases(leases, thread_id@, surviving_submission_ids@);
        let mut i: usize = 0;
        while i < self.leases.entries.len()
            invariant
                before.well_formed(),
                leases == before@.leases,
                rolled == rolled_leases(leases, thread_id@, surviving_submission_ids@),
                self@ == (ControlView { leases: self@.leases, ..before@ }),
                self.direct_sends == before.direct_sends,
                i <= self@.leases.len() == leases.len(),
                self@.leases =~= rolled.take(i as int) + leases.subrange(
                    i as int,
                    leases.len() as int,
                ),
            decreases self@.leases.len() - i,
        {
            assert(self@.leases[i as int] == leases[i as int]);
            if same_text(self.leases.entries[i].1.thread_id.as_str(), thread_id) {
                let mut pending: bool = false;
                let receipt: Option<SubmittedLeaseReceipt> = match &self.leases.entries[i].1.state {
                    ExternalLeaseState::Draft { .. } => None,
                    ExternalLeaseState::SubmissionPending { receipt } => {
                        pending = true;
                        Some(receipt.copied())
                    },
                    ExternalLeaseState::SubmittedIntact { receipt } => Some(receipt.copied()),
                    ExternalLeaseState::SubmissionAbandoned { receipt } => Some(receipt.copied()),
                    ExternalLeaseState::CorrectionPending { receipt, .. } => Some(receipt.copied()),
                };
                if let Some(receipt) = receipt {
                    if !lists(surviving_submission_ids, receipt.submission_id) {
                        self.leases.entries[i].1.state = ExternalLeaseState::SubmissionAbandoned {
                            receipt,
                        };
                        self.leases.entries[i].1.submit_attempt = Some(
                            SubmitAttempt::Resolved {
                                result: WireResult::SubmissionAbandoned,
                                guard: None,
                            },
                        );
                    } else if pending {
                        self.leases.entries[i].1.state = ExternalLeaseState::SubmittedIntact {
                            receipt,
                        };
                    }
                }
            }
            i += 1;
        }
        assert(self@.leases =~= rolled);
        proof {
            same_places(leases, self@.leases);
        }
        self.drop_leases(thread_id);
    }
}

} // verus!
