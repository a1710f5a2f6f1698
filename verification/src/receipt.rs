//! Receipts of submitted text, corrections in preparation, and how dispatches ended.
use crate::ids::Uuid;
use crate::submission::NativeComposerSubmission;
use crate::text::{byte_len, same_text, slice, text_at, utf8};
use crate::wire::{ErrorCode, WireResult};
use std::ops::Range;
use vstd::prelude::*;
use vstd::string::*;

verus! {

/// Where a lease's text stands in the message that was submitted.
pub struct SubmittedLeaseReceipt {
    pub submission_id: Uuid,
    pub submitted_text: String,
    pub range: Range<usize>,
}

impl SubmittedLeaseReceipt {
    /// The text that the receipt owns.
    pub open spec fn owned(self) -> Option<Seq<char>> {
        text_at(self.submitted_text@, self.range.start as int, self.range.end as int)
    }

    /// The receipt owns exactly `expected`.
    pub fn owns(&self, expected: &str) -> (owns: bool)
        ensures
            owns == (self.owned() == Some(expected@)),
    {
        match slice(self.submitted_text.as_str(), self.range.start, self.range.end) {
            Some(text) => same_text(text, expected),
            None => false,
        }
    }

    pub fn copied(&self) -> (copy: Self)
        ensures
            copy == *self,
    {
        SubmittedLeaseReceipt {
            submission_id: self.submission_id,
            submitted_text: self.submitted_text.clone(),
            range: self.range.start..self.range.end,
        }
    }
}

/// The receipt of a composer-free submission, which owns the whole message.
pub open spec fn is_whole_receipt(
    receipt: SubmittedLeaseReceipt,
    submission_id: Uuid,
    text: Seq<char>,
) -> bool {
    &&& receipt.submission_id == submission_id
    &&& receipt.submitted_text@ == text
    &&& receipt.range.start == 0
    &&& receipt.range.end == utf8(text).len()
}

/// The receipt of a composer-free submission, which owns the whole message.
pub fn direct_receipt(submission: &NativeComposerSubmission) -> (receipt: SubmittedLeaseReceipt)
    ensures
        receipt.submitted_text == submission.submitted_text,
        is_whole_receipt(receipt, submission.submission_id, submission.submitted_text@),
{
    SubmittedLeaseReceipt {
        submission_id: submission.submission_id,
        submitted_text: submission.submitted_text.clone(),
        range: 0..byte_len(submission.submitted_text.as_str()),
    }
}

/// How the dispatch of a correction ended.
#[derive(Clone, Copy, Debug, PartialEq, Eq, Structural)]
pub enum CorrectionDispatchOutcome {
    Accepted,
    NotApplied,
    Unknown,
}

/// How the dispatch of a submission ended.
#[derive(Clone, Copy, Debug, PartialEq, Eq, Structural)]
pub enum SubmissionDispatchOutcome {
    Accepted,
    AcceptedButUncommitted,
    NotApplied(ErrorCode),
    Unknown,
}

/// Which table a correction belongs to.
#[derive(Clone, Copy, Debug, PartialEq, Eq, Structural)]
pub enum CorrectionOrigin {
    Composer,
    Direct,
}

/// A correction ready for the app-server. It carries transcript text, so it has no `Debug`.
pub struct PreparedCorrection {
    pub lease_id: Uuid,
    pub origin: CorrectionOrigin,
    pub thread_id: String,
    pub correction_id: Uuid,
    pub expected_client_user_message_id: String,
    pub payload: String,
}

/// A correction that waits for its size to be measured. Nothing has changed yet: it is admitted
/// where none of its drafts has to be cut to fit, and dropped otherwise.
pub struct CorrectionProposal {
    pub lease_id: Uuid,
    pub origin: CorrectionOrigin,
    pub thread_id: String,
    pub correction_id: Uuid,
    pub receipt: SubmittedLeaseReceipt,
    pub expected: String,
    pub replacement: String,
    pub drafts: Vec<String>,
}

impl CorrectionProposal {
    /// The drafts spell out replacements that amend the owned text as asked.
    pub open spec fn well_formed(self) -> bool {
        &&& self.drafts@.len() > 0
        &&& self.expected@ != self.replacement@
        &&& self.receipt.owned() == Some(self.expected@)
        &&& exists|hunks: Seq<crate::hunks::HunkView>|
            #[trigger] crate::correction::is_correction(
                self.receipt.submission_id,
                self.receipt.submitted_text@,
                self.receipt.range.start as int,
                self.receipt.range.end as int,
                self.expected@,
                self.replacement@,
                hunks,
                crate::diff::texts(self.drafts@),
            )
    }

    /// The correction itself: the last draft.
    pub open spec fn payload(self) -> Seq<char> {
        self.drafts@.last()@
    }
}

/// What became of a replacement request.
pub enum ReplaceOutcome {
    Complete(WireResult),
    /// A new correction whose size has to be measured.
    Propose(CorrectionProposal),
    /// A correction that is dispatched, for the first time or again.
    Correct(PreparedCorrection),
}

} // verus!
