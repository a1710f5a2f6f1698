//! Captures and leases of composer text.
use crate::digest::TextDigest;
use crate::fence::{is_let_go, let_go, only_rises, FenceId, FenceTable, SubmitFence};
use crate::ids::Uuid;
use crate::receipt::SubmittedLeaseReceipt;
use crate::submission::ComposerLeaseId;
use crate::wire::WireResult;
use vstd::prelude::*;

verus! {

/// A compare-and-swap token on the composer: the draft as it was when it was taken.
pub struct Capture {
    pub thread_id: String,
    pub text_hash: TextDigest,
    pub cursor: usize,
    pub input_epoch: u64,
}

impl Capture {
    pub fn copied(&self) -> (copy: Self)
        ensures
            copy == *self,
    {
        Capture {
            thread_id: self.thread_id.clone(),
            text_hash: self.text_hash,
            cursor: self.cursor,
            input_epoch: self.input_epoch,
        }
    }
}

/// The whole draft as it was right after an insertion.
#[derive(Clone, Copy, Debug, PartialEq, Eq, Structural)]
pub struct DraftWitness {
    pub text_hash: TextDigest,
    pub cursor: usize,
    pub input_epoch: u64,
}

/// The one submit attempt of a lease.
#[derive(Clone, Copy, Debug, PartialEq, Eq, Structural)]
pub enum SubmitAttempt {
    Dispatching { fence: FenceId },
    /// `guard` is the fence behind which an unknown outcome still guards the draft.
    Resolved { result: WireResult, guard: Option<FenceId> },
}

/// Where a lease stands.
pub enum ExternalLeaseState {
    Draft { native: ComposerLeaseId },
    SubmissionPending { receipt: SubmittedLeaseReceipt },
    SubmittedIntact { receipt: SubmittedLeaseReceipt },
    SubmissionAbandoned { receipt: SubmittedLeaseReceipt },
    CorrectionPending {
        receipt: SubmittedLeaseReceipt,
        correction_id: Uuid,
        expected: String,
        replacement: String,
        payload: String,
    },
}

/// A piece of composer text that was inserted for a producer.
pub struct ExternalLease {
    pub state: ExternalLeaseState,
    pub thread_id: String,
    pub expected_hash: TextDigest,
    pub draft_witness: DraftWitness,
    pub submit_attempt: Option<SubmitAttempt>,
}

/// The fence behind which the outcome of the attempt is unknown.
pub open spec fn unknown_fence(attempt: Option<SubmitAttempt>) -> Option<FenceId> {
    match attempt {
        Some(SubmitAttempt::Resolved { result: WireResult::Unknown, guard }) => guard,
        _ => None,
    }
}

/// The fence of an attempt that is under way or whose outcome is unknown.
pub open spec fn attempt_fence(attempt: Option<SubmitAttempt>) -> Option<FenceId> {
    match attempt {
        Some(SubmitAttempt::Dispatching { fence }) => Some(fence),
        _ => unknown_fence(attempt),
    }
}

/// A resolved attempt without a fence.
pub open spec fn resolved(result: WireResult) -> Option<SubmitAttempt> {
    Some(SubmitAttempt::Resolved { result, guard: None })
}

impl ExternalLease {
    pub open spec fn in_state(self, state: ExternalLeaseState) -> Self {
        ExternalLease { state, ..self }
    }

    pub open spec fn attempted(self, attempt: Option<SubmitAttempt>) -> Self {
        ExternalLease { submit_attempt: attempt, ..self }
    }

    /// A dispatch of this lease is under way, or its outcome is unknown, and it still guards the
    /// draft.
    pub open spec fn has_live_fence(self, fences: Seq<SubmitFence>) -> bool {
        match attempt_fence(self.submit_attempt) {
            Some(fence) => !is_let_go(fences, fence),
            None => false,
        }
    }

    /// The lease is a draft that may nevertheless have been sent.
    pub open spec fn has_unresolved_provenance(self) -> bool {
        self.state is Draft && match self.submit_attempt {
            Some(SubmitAttempt::Dispatching { .. }) => true,
            Some(SubmitAttempt::Resolved { result, .. }) => result == WireResult::Unknown,
            None => false,
        }
    }

    /// The message that the lease was, or may have been, submitted with.
    pub open spec fn receipt(self) -> Option<SubmittedLeaseReceipt> {
        match self.state {
            ExternalLeaseState::Draft { .. } => None,
            ExternalLeaseState::SubmissionPending { receipt } => Some(receipt),
            ExternalLeaseState::SubmittedIntact { receipt } => Some(receipt),
            ExternalLeaseState::SubmissionAbandoned { receipt } => Some(receipt),
            ExternalLeaseState::CorrectionPending { receipt, .. } => Some(receipt),
        }
    }

    /// The lease with its unknown outcome no longer guarded.
    pub open spec fn relinquished(self) -> Self {
        if unknown_fence(self.submit_attempt) is Some {
            self.attempted(resolved(WireResult::Unknown))
        } else {
            self
        }
    }

    /// The fences once this lease no longer guards its unknown outcome.
    pub open spec fn fences_relinquished(self, fences: Seq<SubmitFence>) -> Seq<SubmitFence> {
        match unknown_fence(self.submit_attempt) {
            Some(fence) => let_go(fences, fence),
            None => fences,
        }
    }
}

/// The fence behind which the outcome of the attempt is unknown.
pub fn unknown_fence_of(attempt: &Option<SubmitAttempt>) -> (fence: Option<FenceId>)
    ensures
        fence == unknown_fence(*attempt),
{
    match attempt {
        Some(SubmitAttempt::Resolved { result: WireResult::Unknown, guard }) => *guard,
        _ => None,
    }
}

/// The fence of an attempt that is under way or whose outcome is unknown.
pub fn attempt_fence_of(attempt: &Option<SubmitAttempt>) -> (fence: Option<FenceId>)
    ensures
        fence == attempt_fence(*attempt),
{
    match attempt {
        Some(SubmitAttempt::Dispatching { fence }) => Some(*fence),
        _ => unknown_fence_of(attempt),
    }
}

/// Lets go of the fence that guards a lease's unknown outcome.
pub fn relinquish_unknown_submit(lease: &mut ExternalLease, fences: &mut FenceTable)
    ensures
        *final(lease) == old(lease).relinquished(),
        final(fences).fences@ == old(lease).fences_relinquished(old(fences).fences@),
        only_rises(old(fences).fences@, final(fences).fences@),
{
    if let Some(fence) = unknown_fence_of(&lease.submit_attempt) {
        fences.relinquish(fence);
        lease.submit_attempt = Some(
            SubmitAttempt::Resolved { result: WireResult::Unknown, guard: None },
        );
    }
}

/// `true` exactly when the lease guards the draft.
pub fn has_live_submit_fence(lease: &ExternalLease, fences: &FenceTable) -> (live: bool)
    ensures
        live == lease.has_live_fence(fences.fences@),
{
    match attempt_fence_of(&lease.submit_attempt) {
        Some(fence) => !fences.is_relinquished(fence),
        None => false,
    }
}

/// `true` exactly when the lease is a draft that may nevertheless have been sent.
pub fn has_unresolved_draft_provenance(lease: &ExternalLease) -> (unresolved: bool)
    ensures
        unresolved == lease.has_unresolved_provenance(),
{
    let may_be_sent: bool = match &lease.submit_attempt {
        Some(SubmitAttempt::Dispatching { .. }) => true,
        Some(SubmitAttempt::Resolved { result, .. }) => *result == WireResult::Unknown,
        None => false,
    };
    matches!(lease.state, ExternalLeaseState::Draft { .. }) && may_be_sent
}

} // verus!
