//! Commands that settle leases: submit, verify, keep, acknowledge and replace.
use crate::commands::{CommandExecution, PreparedSubmission};
use crate::control::{ComposerControlState, ControlView, MAX_LEASE_COUNT};
use crate::digest::{text_digest, text_hash};
use crate::direct_send::{
    dispatches, prepare_correction, propose_correction, proposes,
};
use crate::hunks::cannot_spell;
use crate::fence::{FenceId, SubmitFence};
use crate::ids::{lists, Uuid};
use crate::lease::{
    attempt_fence, attempt_fence_of, has_live_submit_fence, has_unresolved_draft_provenance,
    resolved, unknown_fence, unknown_fence_of, DraftWitness, ExternalLease, ExternalLeaseState,
    SubmitAttempt,
};
use crate::ledger::{
    first_where, first_where_is, note_retired, noted, refiled, refiled_keeps_others, without,
    without_keeps_others,
};
use crate::receipt::{CorrectionOrigin, ReplaceOutcome};
use crate::submission::ComposerLeaseId;
use crate::target::{
    available_draft, available_snapshot, lease_error_code, let_go_into, map_lease_error,
    ComposerControlTarget, ComposerLeaseError, ComposerSnapshot, SnapshotView,
};
use crate::text::same_text;
use crate::wire::{refused, ErrorCode, WireResult};
use vstd::prelude::*;
use vstd::string::*;

verus! {

/// What a submit comes to.
pub enum SubmitDecision {
    /// The lease has its answer already, or it has none to give.
    Answer(WireResult),
    /// The attempt is spent: it ends with this result, behind this fence.
    Resolve(WireResult, Option<FenceId>),
    /// The draft is exact and is dispatched.
    Dispatch(ComposerLeaseId),
}

/// The lease belongs to `thread_id` and was dispatched, or may have been.
pub open spec fn fenced_in_thread(thread_id: Seq<char>) -> spec_fn(ExternalLease) -> bool {
    |lease: ExternalLease|
        lease.thread_id@ == thread_id && attempt_fence(lease.submit_attempt) is Some
}

/// The draft is the one that the lease was inserted into, with the cursor where it was and no
/// input since.
pub open spec fn witnesses(witness: DraftWitness, draft: SnapshotView, input_epoch: u64) -> bool {
    witness == (DraftWitness {
        text_hash: text_digest(draft.text),
        cursor: draft.cursor,
        input_epoch,
    })
}

impl ComposerControlState {
    /// The fence behind which a message of `thread_id` was, or may have been, dispatched.
    pub open spec fn thread_fence(self, thread_id: Seq<char>) -> Option<FenceId> {
        let at = first_where(self@.leases, fenced_in_thread(thread_id), 0);
        if at < self@.leases.len() {
            attempt_fence(self@.leases[at as int].1.submit_attempt)
        } else {
            None
        }
    }

    fn find_thread_fence(&self, thread_id: &str) -> (fence: Option<FenceId>)
        ensures
            fence == self.thread_fence(thread_id@),
    {
        let ghost wanted = fenced_in_thread(thread_id@);
        let mut i: usize = 0;
        while i < self.leases.entries.len()
            invariant
                wanted == fenced_in_thread(thread_id@),
                i <= self@.leases.len(),
                forall|k: int| 0 <= k < i ==> !wanted((#[trigger] self@.leases[k]).1),
            decreases self@.leases.len() - i,
        {
            if same_text(self.leases.entries[i].1.thread_id.as_str(), thread_id) {
                let fence: Option<FenceId> = attempt_fence_of(
                    &self.leases.entries[i].1.submit_attempt,
                );
                if fence.is_some() {
                    proof {
                        first_where_is(self@.leases, wanted, 0, i as nat);
                    }
                    return fence;
                }
            }
            i += 1;
        }
        proof {
            first_where_is(self@.leases, wanted, 0, self@.leases.len());
        }
        None
    }

    /// What a submit of a held lease comes to. A lease is dispatched at most once: every other
    /// submit is answered from the first.
    pub open spec fn submit_decision<T: ComposerControlTarget>(
        self,
        target: &T,
        overlay: bool,
        lease_id: Uuid,
        expected: Seq<char>,
    ) -> SubmitDecision {
        let lease = self.lease(lease_id);
        match lease.submit_attempt {
            Some(SubmitAttempt::Dispatching { .. }) => SubmitDecision::Answer(WireResult::Unknown),
            Some(SubmitAttempt::Resolved { result, .. }) => SubmitDecision::Answer(result),
            None => if lease.expected_hash != text_digest(expected) {
                SubmitDecision::Resolve(refused(ErrorCode::ExpectedMismatch), None)
            } else {
                match lease.state {
                    ExternalLeaseState::SubmittedIntact { .. }
                    | ExternalLeaseState::CorrectionPending { .. } => SubmitDecision::Answer(
                        WireResult::SubmittedIntact,
                    ),
                    ExternalLeaseState::SubmissionAbandoned { .. } => SubmitDecision::Answer(
                        WireResult::SubmissionAbandoned,
                    ),
                    ExternalLeaseState::SubmissionPending { .. } => SubmitDecision::Answer(
                        WireResult::SendAccepted,
                    ),
                    ExternalLeaseState::Draft { native } => self.draft_decision(
                        target,
                        overlay,
                        lease,
                        native,
                        expected,
                    ),
                }
            },
        }
    }

    /// What a submit of a draft comes to.
    pub open spec fn draft_decision<T: ComposerControlTarget>(
        self,
        target: &T,
        overlay: bool,
        lease: ExternalLease,
        native: ComposerLeaseId,
        expected: Seq<char>,
    ) -> SubmitDecision {
        match available_draft(target, overlay) {
            None => if target.shown_thread() == Some(lease.thread_id@) {
                SubmitDecision::Resolve(refused(ErrorCode::ComposerUnavailable), None)
            } else {
                SubmitDecision::Resolve(WireResult::Unknown, None)
            },
            Some(draft) => if lease.thread_id@ != draft.thread_id {
                SubmitDecision::Resolve(WireResult::Unknown, None)
            } else if !witnesses(lease.draft_witness, draft, self.input_epoch) {
                if target.owns(native, expected) == Err::<(), _>(
                    ComposerLeaseError::LeaseUnavailable,
                ) {
                    SubmitDecision::Resolve(WireResult::Unknown, None)
                } else {
                    SubmitDecision::Resolve(refused(ErrorCode::CaptureChanged), None)
                }
            } else {
                match (target.owns(native, expected), self.thread_fence(lease.thread_id@)) {
                    (Err(error), _) => SubmitDecision::Resolve(
                        refused(lease_error_code(error)),
                        None,
                    ),
                    (Ok(_), Some(fence)) => SubmitDecision::Resolve(
                        WireResult::Unknown,
                        Some(fence),
                    ),
                    (Ok(_), None) => SubmitDecision::Dispatch(native),
                }
            },
        }
    }

    fn decide_submit<T: ComposerControlTarget>(
        &self,
        target: &T,
        app_overlay_active: bool,
        lease: &ExternalLease,
        expected: &str,
    ) -> (decision: SubmitDecision)
        requires
            exists|lease_id: Uuid|
                self.leased(lease_id) && #[trigger] self.lease(lease_id) == *lease,
        ensures
            forall|lease_id: Uuid|
                #[trigger] self.lease(lease_id) == *lease ==> decision == self.submit_decision(
                    target,
                    app_overlay_active,
                    lease_id,
                    expected@,
                ),
    {
        match &lease.submit_attempt {
            Some(SubmitAttempt::Dispatching { .. }) => {
                return SubmitDecision::Answer(WireResult::Unknown);
            },
            Some(SubmitAttempt::Resolved { result, .. }) => {
                return SubmitDecision::Answer(*result);
            },
            None => {},
        }
        if lease.expected_hash != text_hash(expected) {
            return SubmitDecision::Resolve(
                WireResult::not_applied(ErrorCode::ExpectedMismatch),
                None,
            );
        }
        let native: ComposerLeaseId = match &lease.state {
            ExternalLeaseState::SubmittedIntact { .. }
            | ExternalLeaseState::CorrectionPending { .. } => {
                return SubmitDecision::Answer(WireResult::SubmittedIntact);
            },
            ExternalLeaseState::SubmissionAbandoned { .. } => {
                return SubmitDecision::Answer(WireResult::SubmissionAbandoned);
            },
            ExternalLeaseState::SubmissionPending { .. } => {
                return SubmitDecision::Answer(WireResult::SendAccepted);
            },
            ExternalLeaseState::Draft { native } => *native,
        };
        let snapshot: ComposerSnapshot = match available_snapshot(target, app_overlay_active) {
            Some(snapshot) => snapshot,
            None => {
                let same_thread: bool = match target.thread_id() {
                    Some(thread_id) => same_text(thread_id.as_str(), lease.thread_id.as_str()),
                    None => false,
                };
                return if same_thread {
                    SubmitDecision::Resolve(
                        WireResult::not_applied(ErrorCode::ComposerUnavailable),
                        None,
                    )
                } else {
                    SubmitDecision::Resolve(WireResult::Unknown, None)
                };
            },
        };
        if !same_text(lease.thread_id.as_str(), snapshot.thread_id.as_str()) {
            return SubmitDecision::Resolve(WireResult::Unknown, None);
        }
        let owned: Result<(), ComposerLeaseError> = target.verify_owned_text(native, expected);
        if lease.draft_witness.text_hash != text_hash(snapshot.text.as_str())
            || lease.draft_witness.cursor != snapshot.cursor || lease.draft_witness.input_epoch
            != self.input_epoch {
            return match owned {
                Err(ComposerLeaseError::LeaseUnavailable) => SubmitDecision::Resolve(
                    WireResult::Unknown,
                    None,
                ),
                _ => SubmitDecision::Resolve(
                    WireResult::not_applied(ErrorCode::CaptureChanged),
                    None,
                ),
            };
        }
        if let Err(error) = owned {
            return SubmitDecision::Resolve(WireResult::not_applied(map_lease_error(error)), None);
        }
        match self.find_thread_fence(lease.thread_id.as_str()) {
            Some(fence) => SubmitDecision::Resolve(WireResult::Unknown, Some(fence)),
            None => SubmitDecision::Dispatch(native),
        }
    }

    /// What `submit` answers and changes.
    pub open spec fn submit_step<T: ComposerControlTarget>(
        self,
        after: Self,
        target: &T,
        overlay: bool,
        lease_id: Uuid,
        expected: String,
        execution: CommandExecution,
    ) -> bool {
        if self.direct_sends.reserved(lease_id) {
            &&& after@ == (ControlView { direct_sends: after.direct_sends@, ..self@ })
            &&& match execution {
                CommandExecution::SubmitDirect(ready) => self.direct_sends.submit_step(
                    after.direct_sends,
                    lease_id,
                    expected,
                    target.shown_thread(),
                    self.user_chronology_epoch,
                    Ok(ready),
                ),
                CommandExecution::Complete(result) => self.direct_sends.submit_step(
                    after.direct_sends,
                    lease_id,
                    expected,
                    target.shown_thread(),
                    self.user_chronology_epoch,
                    Err(result),
                ),
                _ => false,
            }
        } else if !self.leased(lease_id) {
            &&& execution == CommandExecution::Complete(refused(ErrorCode::LeaseUnavailable))
            &&& after@ == self@
        } else {
            match self.submit_decision(target, overlay, lease_id, expected@) {
                SubmitDecision::Answer(result) => {
                    &&& execution == CommandExecution::Complete(result)
                    &&& after@ == self@
                },
                SubmitDecision::Resolve(result, guard) => {
                    &&& execution == CommandExecution::Complete(result)
                    &&& after@ == (ControlView {
                        leases: refiled(
                            self@.leases,
                            lease_id,
                            self.lease(lease_id).attempted(
                                Some(SubmitAttempt::Resolved { result, guard }),
                            ),
                        ),
                        ..self@
                    })
                },
                SubmitDecision::Dispatch(native) => {
                    let fence = FenceId { index: self@.fences.len() as usize };
                    &&& self@.fences.len() <= usize::MAX
                    &&& execution == CommandExecution::Submit(
                        PreparedSubmission { lease_id, native, expected, fence },
                    )
                    &&& after@ == (ControlView {
                        leases: refiled(
                            self@.leases,
                            lease_id,
                            self.lease(lease_id).attempted(
                                Some(SubmitAttempt::Dispatching { fence }),
                            ),
                        ),
                        fences: self@.fences.push(
                            SubmitFence { relinquished: false, disclosed: false },
                        ),
                        ..self@
                    })
                },
            }
        }
    }

    /// Files `lease` in place of the one under its identifier.
    proof fn refile_keeps_well_formed(before: Self, after: Self, id: Uuid, lease: ExternalLease)
        requires
            before.well_formed(),
            before.leased(id),
            after@ == (ControlView {
                leases: refiled(before@.leases, id, lease),
                fences: after@.fences,
                ..before@
            }),
            after.direct_sends.well_formed(),
        ensures
            after.well_formed(),
    {
        refiled_keeps_others(before@.leases, id, lease);
    }

    /// Dispatches the draft of a lease where that is exactly what was inserted.
    pub fn submit<T: ComposerControlTarget>(
        &mut self,
        target: &T,
        app_overlay_active: bool,
        lease_id: Uuid,
        expected: String,
    ) -> (execution: CommandExecution)
        requires
            old(self).well_formed(),
        ensures
            final(self).well_formed(),
            old(self).submit_step(
                *final(self),
                target,
                app_overlay_active,
                lease_id,
                expected,
                execution,
            ),
    {
        if self.direct_sends.contains(lease_id) {
            let current_thread_id: Option<String> = target.thread_id();
            let epoch: u64 = self.current_user_chronology_epoch();
            return match self.direct_sends.prepare_submission(
                lease_id,
                expected,
                &current_thread_id,
                epoch,
            ) {
                Ok(submission) => CommandExecution::SubmitDirect(submission),
                Err(result) => CommandExecution::Complete(result),
            };
        }
        let at: usize = match self.leases.position(lease_id) {
            Some(at) => at,
            None => return CommandExecution::Complete(
                WireResult::not_applied(ErrorCode::LeaseUnavailable),
            ),
        };
        let ghost before = *self;
        assert(self.lease(lease_id) == self.leases.entries@[at as int].1);
        match self.decide_submit(
            target,
            app_overlay_active,
            &self.leases.entries[at].1,
            expected.as_str(),
        ) {
            SubmitDecision::Answer(result) => CommandExecution::Complete(result),
            SubmitDecision::Resolve(result, guard) => {
                let attempt = Some(SubmitAttempt::Resolved { result, guard });
                self.leases.entries[at].1.submit_attempt = attempt;
                proof {
                    let lease = before.lease(lease_id).attempted(attempt);
                    assert(self@.leases =~= refiled(before@.leases, lease_id, lease));
                    Self::refile_keeps_well_formed(before, *self, lease_id, lease);
                }
                CommandExecution::Complete(result)
            },
            SubmitDecision::Dispatch(native) => {
                let fence: FenceId = self.fences.raise();
                let attempt = Some(SubmitAttempt::Dispatching { fence });
                self.leases.entries[at].1.submit_attempt = attempt;
                proof {
                    let lease = before.lease(lease_id).attempted(attempt);
                    assert(self@.leases =~= refiled(before@.leases, lease_id, lease));
                    Self::refile_keeps_well_formed(before, *self, lease_id, lease);
                }
                CommandExecution::Submit(
                    PreparedSubmission { lease_id, native, expected, fence },
                )
            },
        }
    }

    /// What `verify` answers.
    pub open spec fn verify_answer<T: ComposerControlTarget>(
        self,
        target: &T,
        overlay: bool,
        lease_id: Uuid,
        expected: Seq<char>,
    ) -> WireResult {
        let lease = self.lease(lease_id);
        if self.direct_sends.reserved(lease_id) {
            self.direct_sends.verify_answer(
                lease_id,
                expected,
                target.shown_thread(),
                self.user_chronology_epoch,
            )
        } else if !self.leased(lease_id) {
            refused(ErrorCode::LeaseUnavailable)
        } else if lease.expected_hash != text_digest(expected) {
            refused(ErrorCode::ExpectedMismatch)
        } else {
            match lease.state {
                ExternalLeaseState::SubmittedIntact { .. } => WireResult::SubmittedIntact,
                ExternalLeaseState::SubmissionAbandoned { .. } => WireResult::SubmissionAbandoned,
                ExternalLeaseState::CorrectionPending { .. } => refused(
                    ErrorCode::LeaseUnavailable,
                ),
                ExternalLeaseState::SubmissionPending { .. } => if lease.submit_attempt == resolved(
                    WireResult::Unknown,
                ) {
                    WireResult::Unknown
                } else {
                    WireResult::SubmissionPending
                },
                ExternalLeaseState::Draft { native } => match (
                    lease.submit_attempt,
                    available_draft(target, overlay),
                ) {
                    (Some(SubmitAttempt::Resolved { result: WireResult::Unknown, .. }), _) => {
                        WireResult::Unknown
                    },
                    (
                        Some(SubmitAttempt::Resolved { result: WireResult::SubmissionAbandoned, .. }),
                        _,
                    ) => WireResult::SubmissionAbandoned,
                    (_, Some(draft)) if lease.thread_id@ == draft.thread_id => match target.owns(
                        native,
                        expected,
                    ) {
                        Ok(_) => WireResult::Verified,
                        Err(error) => refused(lease_error_code(error)),
                    },
                    _ => refused(ErrorCode::ComposerUnavailable),
                },
            }
        }
    }

    /// Whether a lease is still good for `expected`. Nothing changes.
    pub fn verify<T: ComposerControlTarget>(
        &self,
        target: &T,
        app_overlay_active: bool,
        lease_id: Uuid,
        expected: &str,
    ) -> (result: WireResult)
        requires
            self.well_formed(),
        ensures
            result == self.verify_answer(target, app_overlay_active, lease_id, expected@),
    {
        if self.direct_sends.contains(lease_id) {
            let current_thread_id: Option<String> = target.thread_id();
            return self.direct_sends.verify(
                lease_id,
                expected,
                &current_thread_id,
                self.current_user_chronology_epoch(),
            );
        }
        let lease: &ExternalLease = match self.leases.get(lease_id) {
            Some(lease) => lease,
            None => return WireResult::not_applied(ErrorCode::LeaseUnavailable),
        };
        if lease.expected_hash != text_hash(expected) {
            return WireResult::not_applied(ErrorCode::ExpectedMismatch);
        }
        match &lease.state {
            ExternalLeaseState::SubmittedIntact { .. } => WireResult::SubmittedIntact,
            ExternalLeaseState::SubmissionAbandoned { .. } => WireResult::SubmissionAbandoned,
            ExternalLeaseState::CorrectionPending { .. } => WireResult::not_applied(
                ErrorCode::LeaseUnavailable,
            ),
            ExternalLeaseState::SubmissionPending { .. } => match &lease.submit_attempt {
                Some(SubmitAttempt::Resolved { result: WireResult::Unknown, guard: None }) => {
                    WireResult::Unknown
                },
                _ => WireResult::SubmissionPending,
            },
            ExternalLeaseState::Draft { native } => {
                match &lease.submit_attempt {
                    Some(SubmitAttempt::Resolved { result: WireResult::Unknown, .. }) => {
                        return WireResult::Unknown;
                    },
                    Some(
                        SubmitAttempt::Resolved { result: WireResult::SubmissionAbandoned, .. },
                    ) => {
                        return WireResult::SubmissionAbandoned;
                    },
                    _ => {},
                }
                match available_snapshot(target, app_overlay_active) {
                    Some(snapshot) => {
                        if !same_text(lease.thread_id.as_str(), snapshot.thread_id.as_str()) {
                            return WireResult::not_applied(ErrorCode::ComposerUnavailable);
                        }
                        match target.verify_owned_text(*native, expected) {
                            Ok(()) => WireResult::Verified,
                            Err(error) => WireResult::not_applied(map_lease_error(error)),
                        }
                    },
                    None => WireResult::not_applied(ErrorCode::ComposerUnavailable),
                }
            },
        }
    }
}

impl ComposerControlState {
    /// `after` is `self` without the lease under `id`, which is noted as kept.
    pub open spec fn lets_go(self, after: Self, id: Uuid) -> bool {
        after@ == (ControlView {
            leases: without(self@.leases, id),
            kept_leases: noted(self@.kept_leases, id, MAX_LEASE_COUNT as int),
            ..self@
        })
    }

    /// Removes a lease and remembers that it was kept.
    fn remove_lease_kept(&mut self, lease_id: Uuid)
        requires
            old(self).well_formed(),
        ensures
            final(self).well_formed(),
            old(self).lets_go(*final(self), lease_id),
    {
        self.remove_lease(lease_id);
        note_retired(&mut self.kept_leases, lease_id, MAX_LEASE_COUNT);
    }

    /// Removes a lease.
    fn remove_lease(&mut self, lease_id: Uuid)
        requires
            old(self).well_formed(),
        ensures
            final(self).well_formed(),
            !final(self).leased(lease_id),
            final(self)@ == (ControlView {
                leases: without(old(self)@.leases, lease_id),
                ..old(self)@
            }),
    {
        proof {
            without_keeps_others(self@.leases, lease_id);
        }
        self.leases.remove(lease_id);
    }

    /// Removes a lease and remembers that its unknown outcome was acknowledged.
    fn remove_lease_unknown_acknowledged(&mut self, lease_id: Uuid)
        requires
            old(self).well_formed(),
        ensures
            final(self).well_formed(),
            final(self)@ == (ControlView {
                leases: without(old(self)@.leases, lease_id),
                unknown_acknowledged_leases: noted(
                    old(self)@.unknown_acknowledged_leases,
                    lease_id,
                    MAX_LEASE_COUNT as int,
                ),
                ..old(self)@
            }),
    {
        self.remove_lease(lease_id);
        note_retired(&mut self.unknown_acknowledged_leases, lease_id, MAX_LEASE_COUNT);
    }

    /// The draft of a lease must not be touched: it, or another draft of its thread, may have
    /// been sent.
    pub open spec fn mutation_blocked(self, lease: ExternalLease) -> bool {
        lease.has_unresolved_provenance() || self.thread_guarded(lease.thread_id@)
    }

    /// What `keep` answers and changes.
    pub open spec fn keep_step<T: ComposerControlTarget>(
        self,
        after: Self,
        target: T,
        after_target: T,
        overlay: bool,
        lease_id: Uuid,
        result: WireResult,
    ) -> bool {
        let lease = self.lease(lease_id);
        let untouched = after@ == self@ && after_target == target;
        if self.direct_sends.reserved(lease_id) || self.direct_sends.kept@.contains(lease_id) {
            &&& self.direct_sends.keep_step(after.direct_sends, lease_id, result)
            &&& after@ == (ControlView { direct_sends: after.direct_sends@, ..self@ })
            &&& after_target == target
        } else if !self.leased(lease_id) {
            &&& result == if self.kept_leases@.contains(lease_id) {
                WireResult::Kept
            } else {
                refused(ErrorCode::LeaseUnavailable)
            }
            &&& untouched
        } else if lease.has_live_fence(self@.fences) {
            result == WireResult::Unknown && untouched
        } else {
            match lease.state {
                ExternalLeaseState::SubmissionPending { .. } => result
                    == WireResult::SubmissionPending && untouched,
                ExternalLeaseState::SubmittedIntact { .. }
                | ExternalLeaseState::SubmissionAbandoned { .. } => {
                    &&& result == WireResult::Kept
                    &&& self.lets_go(after, lease_id)
                    &&& after_target == target
                },
                ExternalLeaseState::CorrectionPending { .. } => result == refused(
                    ErrorCode::LeaseUnavailable,
                ) && untouched,
                ExternalLeaseState::Draft { native } => match available_draft(&target, overlay) {
                    _ if self.mutation_blocked(lease) => result == WireResult::Unknown && untouched,
                    Some(draft) if lease.thread_id@ == draft.thread_id => {
                        exists|kept: Result<(), ComposerLeaseError>|
                            {
                                &&& #[trigger] target.may_keep(native, after_target, kept)
                                &&& match kept {
                                    Ok(_) => result == WireResult::Kept && self.lets_go(
                                        after,
                                        lease_id,
                                    ),
                                    Err(error) => result == refused(lease_error_code(error))
                                        && after@ == self@,
                                }
                            }
                    },
                    _ => result == refused(ErrorCode::ComposerUnavailable) && untouched,
                },
            }
        }
    }

    /// Lets the text of a lease go: it stays as it is and loses its owner.
    pub fn keep<T: ComposerControlTarget>(
        &mut self,
        target: &mut T,
        app_overlay_active: bool,
        lease_id: Uuid,
    ) -> (result: WireResult)
        requires
            old(self).well_formed(),
        ensures
            final(self).well_formed(),
            old(self).keep_step(
                *final(self),
                *old(target),
                *final(target),
                app_overlay_active,
                lease_id,
                result,
            ),
    {
        if self.direct_sends.contains_keep_id(lease_id) {
            return self.direct_sends.keep(lease_id);
        }
        let lease: &ExternalLease = match self.leases.get(lease_id) {
            Some(lease) => lease,
            None => return if lists(&self.kept_leases, lease_id) {
                WireResult::Kept
            } else {
                WireResult::not_applied(ErrorCode::LeaseUnavailable)
            },
        };
        if has_live_submit_fence(lease, &self.fences) {
            return WireResult::Unknown;
        }
        let native: ComposerLeaseId = match &lease.state {
            ExternalLeaseState::SubmissionPending { .. } => return WireResult::SubmissionPending,
            ExternalLeaseState::SubmittedIntact { .. }
            | ExternalLeaseState::SubmissionAbandoned { .. } => {
                self.remove_lease_kept(lease_id);
                return WireResult::Kept;
            },
            ExternalLeaseState::CorrectionPending { .. } => {
                return WireResult::not_applied(ErrorCode::LeaseUnavailable);
            },
            ExternalLeaseState::Draft { native } => *native,
        };
        if has_unresolved_draft_provenance(lease) || self.is_thread_guarded(
            lease.thread_id.as_str(),
        ) {
            return WireResult::Unknown;
        }
        let snapshot: ComposerSnapshot = match available_snapshot(&*target, app_overlay_active) {
            Some(snapshot) => snapshot,
            None => return WireResult::not_applied(ErrorCode::ComposerUnavailable),
        };
        if !same_text(lease.thread_id.as_str(), snapshot.thread_id.as_str()) {
            return WireResult::not_applied(ErrorCode::ComposerUnavailable);
        }
        match target.keep_owned_text(native) {
            Ok(()) => {
                self.remove_lease_kept(lease_id);
                WireResult::Kept
            },
            Err(error) => WireResult::not_applied(map_lease_error(error)),
        }
    }

    /// What `acknowledge_unknown` answers and changes.
    pub open spec fn acknowledge_step<T: ComposerControlTarget>(
        self,
        after: Self,
        target: T,
        after_target: T,
        lease_id: Uuid,
        result: WireResult,
    ) -> bool {
        let lease = self.lease(lease_id);
        let untouched = after@ == self@ && after_target == target;
        if self.direct_sends.reserved(lease_id)
            || self.direct_sends.unknown_acknowledged@.contains(lease_id) {
            &&& self.direct_sends.acknowledge_step(after.direct_sends, lease_id, result)
            &&& after@ == (ControlView { direct_sends: after.direct_sends@, ..self@ })
            &&& after_target == target
        } else if !self.leased(lease_id) {
            &&& result == if self.unknown_acknowledged_leases@.contains(lease_id) {
                WireResult::UnknownAcknowledged
            } else {
                refused(ErrorCode::LeaseUnavailable)
            }
            &&& untouched
        } else {
            match lease.state {
                ExternalLeaseState::SubmissionPending { .. } => result
                    == WireResult::SubmissionPending && untouched,
                ExternalLeaseState::SubmittedIntact { .. }
                | ExternalLeaseState::CorrectionPending { .. } => result
                    == WireResult::SubmittedIntact && untouched,
                ExternalLeaseState::SubmissionAbandoned { .. } => result
                    == WireResult::SubmissionAbandoned && untouched,
                ExternalLeaseState::Draft { native } => match lease.submit_attempt {
                    None => result == refused(ErrorCode::LeaseUnavailable) && untouched,
                    Some(SubmitAttempt::Dispatching { .. }) => result == WireResult::Unknown
                        && untouched,
                    Some(SubmitAttempt::Resolved { result: resolved, .. }) => if resolved
                        != WireResult::Unknown {
                        result == resolved && untouched
                    } else {
                        &&& result == WireResult::UnknownAcknowledged
                        &&& let_go_into(target, native, after_target)
                        &&& after@ == (ControlView {
                            leases: without(self@.leases, lease_id),
                            unknown_acknowledged_leases: noted(
                                self@.unknown_acknowledged_leases,
                                lease_id,
                                MAX_LEASE_COUNT as int,
                            ),
                            fences: lease.fences_relinquished(self@.fences),
                            ..self@
                        })
                    },
                },
            }
        }
    }

    /// Accepts that the outcome of a dispatch cannot be known. The visible text stays, and the
    /// producer's right to edit it ends.
    pub fn acknowledge_unknown<T: ComposerControlTarget>(
        &mut self,
        target: &mut T,
        lease_id: Uuid,
    ) -> (result: WireResult)
        requires
            old(self).well_formed(),
        ensures
            final(self).well_formed(),
            old(self).acknowledge_step(
                *final(self),
                *old(target),
                *final(target),
                lease_id,
                result,
            ),
    {
        if self.direct_sends.contains_acknowledgement_id(lease_id) {
            return self.direct_sends.acknowledge_unknown(lease_id);
        }
        let lease: &ExternalLease = match self.leases.get(lease_id) {
            Some(lease) => lease,
            None => return if lists(&self.unknown_acknowledged_leases, lease_id) {
                WireResult::UnknownAcknowledged
            } else {
                WireResult::not_applied(ErrorCode::LeaseUnavailable)
            },
        };
        let native: ComposerLeaseId = match &lease.state {
            ExternalLeaseState::SubmissionPending { .. } => return WireResult::SubmissionPending,
            ExternalLeaseState::SubmittedIntact { .. }
            | ExternalLeaseState::CorrectionPending { .. } => return WireResult::SubmittedIntact,
            ExternalLeaseState::SubmissionAbandoned { .. } => {
                return WireResult::SubmissionAbandoned;
            },
            ExternalLeaseState::Draft { native } => *native,
        };
        let guard: Option<FenceId> = match &lease.submit_attempt {
            None => return WireResult::not_applied(ErrorCode::LeaseUnavailable),
            Some(SubmitAttempt::Dispatching { .. }) => return WireResult::Unknown,
            Some(SubmitAttempt::Resolved { result, guard }) => {
                if *result != WireResult::Unknown {
                    return *result;
                }
                *guard
            },
        };
        if let Some(fence) = guard {
            self.fences.relinquish(fence);
        }
        // A missing native lease already means that another serialized composer change ended the
        // ownership. Either way the visible text stays and this producer's edit right ends.
        let _kept = target.keep_owned_text(native);
        self.remove_lease_unknown_acknowledged(lease_id);
        WireResult::UnknownAcknowledged
    }

    /// What a replacement of a draft answers and changes.
    pub open spec fn replace_draft_step<T: ComposerControlTarget>(
        self,
        after: Self,
        target: T,
        after_target: T,
        overlay: bool,
        lease_id: Uuid,
        native: ComposerLeaseId,
        expected: Seq<char>,
        replacement: Seq<char>,
        result: WireResult,
    ) -> bool {
        match available_draft(&target, overlay) {
            Some(draft) if self.lease(lease_id).thread_id@ == draft.thread_id => {
                let leases = without(self@.leases, lease_id);
                exists|replaced: Result<(), ComposerLeaseError>|
                    {
                        &&& #[trigger] target.may_replace(
                            native,
                            expected,
                            replacement,
                            after_target,
                            replaced,
                        )
                        &&& match replaced {
                            Ok(_) => {
                                &&& result == WireResult::Replaced
                                &&& after@ == (ControlView {
                                    leases,
                                    captures: crate::commands::moved_captures(
                                        self@.captures,
                                        draft,
                                        after_target.shown_draft(),
                                        self.input_epoch,
                                    ),
                                    ..self@
                                })
                            },
                            Err(error) => {
                                &&& result == refused(lease_error_code(error))
                                &&& after@ == (ControlView { leases, ..self@ })
                            },
                        }
                    }
            },
            _ => {
                &&& result == refused(ErrorCode::ComposerUnavailable)
                &&& after@ == self@
                &&& after_target == target
            },
        }
    }

    /// What `replace` answers and changes.
    pub open spec fn replace_step<T: ComposerControlTarget>(
        self,
        after: Self,
        target: T,
        after_target: T,
        overlay: bool,
        lease_id: Uuid,
        expected: String,
        replacement: String,
        outcome: ReplaceOutcome,
    ) -> bool {
        let lease = self.lease(lease_id);
        let untouched = after@ == self@ && after_target == target;
        let gone = after@ == (ControlView { leases: without(self@.leases, lease_id), ..self@ });
        if self.direct_sends.reserved(lease_id) {
            &&& self.direct_sends.replace_step(
                after.direct_sends,
                lease_id,
                expected,
                replacement,
                outcome,
            )
            &&& after@ == (ControlView { direct_sends: after.direct_sends@, ..self@ })
            &&& after_target == target
        } else if !self.leased(lease_id) {
            outcome == ReplaceOutcome::Complete(refused(ErrorCode::LeaseUnavailable)) && untouched
        } else if lease.has_live_fence(self@.fences) {
            outcome == ReplaceOutcome::Complete(WireResult::Unknown) && untouched
        } else if lease.state is SubmissionPending {
            outcome == ReplaceOutcome::Complete(WireResult::SubmissionPending) && untouched
        } else if lease.state is Draft && self.mutation_blocked(lease) {
            outcome == ReplaceOutcome::Complete(WireResult::Unknown) && untouched
        } else if lease.expected_hash != text_digest(expected@) {
            if lease.state is CorrectionPending {
                outcome == ReplaceOutcome::Complete(refused(ErrorCode::LeaseUnavailable))
                    && untouched
            } else if unknown_fence(lease.submit_attempt) is Some {
                outcome == ReplaceOutcome::Complete(refused(ErrorCode::ExpectedMismatch))
                    && untouched
            } else {
                &&& outcome == ReplaceOutcome::Complete(refused(ErrorCode::ExpectedMismatch))
                &&& gone
                &&& match lease.state {
                    ExternalLeaseState::Draft { native } if target.shown_thread() == Some(
                        lease.thread_id@,
                    ) => let_go_into(target, native, after_target),
                    _ => after_target == target,
                }
            }
        } else {
            match lease.state {
                ExternalLeaseState::Draft { native } => {
                    &&& outcome matches ReplaceOutcome::Complete(result)
                    &&& self.replace_draft_step(
                        after,
                        target,
                        after_target,
                        overlay,
                        lease_id,
                        native,
                        expected@,
                        replacement@,
                        result,
                    )
                },
                ExternalLeaseState::SubmittedIntact { receipt } => {
                    &&& after_target == target
                    &&& if expected@ == replacement@ {
                        outcome == ReplaceOutcome::Complete(WireResult::Kept) && gone
                    } else if receipt.owned() != Some(expected@) {
                        outcome == ReplaceOutcome::Complete(refused(ErrorCode::ExpectedMismatch))
                            && gone
                    } else {
                        &&& after@ == self@
                        &&& match outcome {
                            ReplaceOutcome::Propose(proposal) => proposes(
                                proposal,
                                lease_id,
                                CorrectionOrigin::Composer,
                                lease.thread_id,
                                receipt,
                                expected,
                                replacement,
                            ),
                            ReplaceOutcome::Complete(result) => result == refused(
                                ErrorCode::CorrectionUnavailable,
                            ) && cannot_spell(expected@, replacement@),
                            ReplaceOutcome::Correct(_) => false,
                        }
                    }
                },
                ExternalLeaseState::CorrectionPending {
                    receipt,
                    correction_id,
                    expected: pending_expected,
                    replacement: pending_replacement,
                    payload,
                } => {
                    &&& untouched
                    &&& if expected@ == pending_expected@ && replacement@ == pending_replacement@ {
                        &&& outcome matches ReplaceOutcome::Correct(correction)
                        &&& dispatches(
                            correction,
                            lease_id,
                            CorrectionOrigin::Composer,
                            lease.thread_id@,
                            correction_id,
                            receipt,
                            payload@,
                        )
                    } else {
                        outcome == ReplaceOutcome::Complete(refused(ErrorCode::LeaseUnavailable))
                    }
                },
                _ => outcome == ReplaceOutcome::Complete(WireResult::SubmissionAbandoned)
                    && untouched,
            }
        }
    }

    /// Replaces the text of a lease: in the composer while it is a draft, by a correction once it
    /// is in model history.
    pub fn replace<T: ComposerControlTarget>(
        &mut self,
        target: &mut T,
        app_overlay_active: bool,
        lease_id: Uuid,
        expected: String,
        replacement: String,
    ) -> (outcome: ReplaceOutcome)
        requires
            old(self).well_formed(),
        ensures
            final(self).well_formed(),
            old(self).replace_step(
                *final(self),
                *old(target),
                *final(target),
                app_overlay_active,
                lease_id,
                expected,
                replacement,
                outcome,
            ),
    {
        if self.direct_sends.contains(lease_id) {
            return self.direct_sends.replace(lease_id, expected, replacement);
        }
        let lease: &ExternalLease = match self.leases.get(lease_id) {
            Some(lease) => lease,
            None => return ReplaceOutcome::Complete(
                WireResult::not_applied(ErrorCode::LeaseUnavailable),
            ),
        };
        if has_live_submit_fence(lease, &self.fences) {
            return ReplaceOutcome::Complete(WireResult::Unknown);
        }
        if matches!(lease.state, ExternalLeaseState::SubmissionPending { .. }) {
            return ReplaceOutcome::Complete(WireResult::SubmissionPending);
        }
        if matches!(lease.state, ExternalLeaseState::Draft { .. }) && (
        has_unresolved_draft_provenance(lease) || self.is_thread_guarded(
            lease.thread_id.as_str(),
        )) {
            return ReplaceOutcome::Complete(WireResult::Unknown);
        }
        if lease.expected_hash != text_hash(expected.as_str()) {
            if matches!(lease.state, ExternalLeaseState::CorrectionPending { .. }) {
                return ReplaceOutcome::Complete(
                    WireResult::not_applied(ErrorCode::LeaseUnavailable),
                );
            }
            if unknown_fence_of(&lease.submit_attempt).is_some() {
                return ReplaceOutcome::Complete(
                    WireResult::not_applied(ErrorCode::ExpectedMismatch),
                );
            }
            let shown: bool = match target.thread_id() {
                Some(thread_id) => same_text(thread_id.as_str(), lease.thread_id.as_str()),
                None => false,
            };
            if shown {
                if let ExternalLeaseState::Draft { native } = &lease.state {
                    let _kept = target.keep_owned_text(*native);
                }
            }
            self.remove_lease(lease_id);
            return ReplaceOutcome::Complete(WireResult::not_applied(ErrorCode::ExpectedMismatch));
        }
        match &lease.state {
            ExternalLeaseState::Draft { native } => {
                let native: ComposerLeaseId = *native;
                let snapshot: ComposerSnapshot = match available_snapshot(
                    &*target,
                    app_overlay_active,
                ) {
                    Some(snapshot) => snapshot,
                    None => return ReplaceOutcome::Complete(
                        WireResult::not_applied(ErrorCode::ComposerUnavailable),
                    ),
                };
                if !same_text(lease.thread_id.as_str(), snapshot.thread_id.as_str()) {
                    return ReplaceOutcome::Complete(
                        WireResult::not_applied(ErrorCode::ComposerUnavailable),
                    );
                }
                self.remove_lease(lease_id);
                match target.replace_owned_text(native, expected.as_str(), replacement.as_str()) {
                    Ok(()) => {
                        self.rebase_matching_captures(&*target, &snapshot);
                        ReplaceOutcome::Complete(WireResult::Replaced)
                    },
                    Err(error) => ReplaceOutcome::Complete(
                        WireResult::not_applied(map_lease_error(error)),
                    ),
                }
            },
            ExternalLeaseState::SubmittedIntact { receipt } => {
                if same_text(expected.as_str(), replacement.as_str()) {
                    self.remove_lease(lease_id);
                    return ReplaceOutcome::Complete(WireResult::Kept);
                }
                if !receipt.owns(expected.as_str()) {
                    self.remove_lease(lease_id);
                    return ReplaceOutcome::Complete(
                        WireResult::not_applied(ErrorCode::ExpectedMismatch),
                    );
                }
                match propose_correction(
                    lease_id,
                    CorrectionOrigin::Composer,
                    lease.thread_id.clone(),
                    receipt.copied(),
                    expected,
                    replacement,
                ) {
                    Some(proposal) => ReplaceOutcome::Propose(proposal),
                    None => ReplaceOutcome::Complete(
                        WireResult::not_applied(ErrorCode::CorrectionUnavailable),
                    ),
                }
            },
            ExternalLeaseState::CorrectionPending {
                receipt,
                correction_id,
                expected: pending_expected,
                replacement: pending_replacement,
                payload,
            } => {
                if !same_text(expected.as_str(), pending_expected.as_str()) || !same_text(
                    replacement.as_str(),
                    pending_replacement.as_str(),
                ) {
                    return ReplaceOutcome::Complete(
                        WireResult::not_applied(ErrorCode::LeaseUnavailable),
                    );
                }
                ReplaceOutcome::Correct(
                    prepare_correction(
                        lease_id,
                        CorrectionOrigin::Composer,
                        lease.thread_id.clone(),
                        *correction_id,
                        receipt.submission_id,
                        payload.clone(),
                    ),
                )
            },
            ExternalLeaseState::SubmissionPending { .. }
            | ExternalLeaseState::SubmissionAbandoned { .. } => ReplaceOutcome::Complete(
                WireResult::SubmissionAbandoned,
            ),
        }
    }
}

} // verus!
