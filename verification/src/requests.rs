//! Requests as the UI loop serves them, one after another.
use crate::commands::{CommandExecution, PreparedSubmission};
use crate::control::{ComposerControlRequest, ComposerControlState};
use crate::direct_send::DirectPreparedSubmission;
use crate::receipt::{CorrectionProposal, PreparedCorrection, ReplaceOutcome};
use crate::target::{available_draft, ComposerControlTarget};
use crate::wire::{refused, ComposerCommand, ErrorCode, WireResult};
use vstd::prelude::*;
use vstd::string::*;

verus! {

/// Work that leaves the UI loop before its request can be answered.
pub enum PendingComposerControlAction {
    Correction(PreparedCorrection),
    Submission(PreparedSubmission),
    DirectSubmission(DirectPreparedSubmission),
}

/// What a request came to.
pub enum RequestOutcome {
    /// The request is answered.
    Reply(WireResult),
    /// The request is answered once the drafts of a correction have been measured.
    Measure(CorrectionProposal),
    /// The request is answered once its dispatch has ended.
    Pending(PendingComposerControlAction),
}

/// A replacement as a command.
pub open spec fn replacement_execution(outcome: ReplaceOutcome) -> CommandExecution {
    match outcome {
        ReplaceOutcome::Complete(result) => CommandExecution::Complete(result),
        ReplaceOutcome::Propose(proposal) => CommandExecution::Propose(proposal),
        ReplaceOutcome::Correct(correction) => CommandExecution::Correct(correction),
    }
}

fn execute_replacement(outcome: ReplaceOutcome) -> (execution: CommandExecution)
    ensures
        execution == replacement_execution(outcome),
{
    match outcome {
        ReplaceOutcome::Complete(result) => CommandExecution::Complete(result),
        ReplaceOutcome::Propose(proposal) => CommandExecution::Propose(proposal),
        ReplaceOutcome::Correct(correction) => CommandExecution::Correct(correction),
    }
}

/// What a command comes to outside.
pub open spec fn execution_outcome(execution: CommandExecution) -> RequestOutcome {
    match execution {
        CommandExecution::Complete(result) => RequestOutcome::Reply(result),
        CommandExecution::Propose(proposal) => RequestOutcome::Measure(proposal),
        CommandExecution::Correct(correction) => RequestOutcome::Pending(
            PendingComposerControlAction::Correction(correction),
        ),
        CommandExecution::Submit(submission) => RequestOutcome::Pending(
            PendingComposerControlAction::Submission(submission),
        ),
        CommandExecution::SubmitDirect(submission) => RequestOutcome::Pending(
            PendingComposerControlAction::DirectSubmission(submission),
        ),
    }
}

fn outcome_of(execution: CommandExecution) -> (outcome: RequestOutcome)
    ensures
        outcome == execution_outcome(execution),
{
    match execution {
        CommandExecution::Complete(result) => RequestOutcome::Reply(result),
        CommandExecution::Propose(proposal) => RequestOutcome::Measure(proposal),
        CommandExecution::Correct(correction) => RequestOutcome::Pending(
            PendingComposerControlAction::Correction(correction),
        ),
        CommandExecution::Submit(submission) => RequestOutcome::Pending(
            PendingComposerControlAction::Submission(submission),
        ),
        CommandExecution::SubmitDirect(submission) => RequestOutcome::Pending(
            PendingComposerControlAction::DirectSubmission(submission),
        ),
    }
}

impl ComposerControlState {
    /// What a command answers and changes.
    pub open spec fn command_step<T: ComposerControlTarget>(
        self,
        after: Self,
        target: T,
        after_target: T,
        overlay: bool,
        command: ComposerCommand,
        execution: CommandExecution,
    ) -> bool {
        match command {
            ComposerCommand::AcquireSend => {
                &&& execution matches CommandExecution::Complete(result)
                &&& self.acquire_step(
                    after,
                    available_draft(&target, overlay),
                    target.direct_send_open(),
                    target.plain_draft_send_open(),
                    self.input_epoch,
                    result,
                )
                &&& after_target == target
            },
            ComposerCommand::Capture => {
                &&& execution matches CommandExecution::Complete(result)
                &&& match available_draft(&target, overlay) {
                    None => result == refused(ErrorCode::ComposerUnavailable) && after@ == self@,
                    Some(draft) => self.capture_step(after, draft, self.input_epoch, result),
                }
                &&& after_target == target
            },
            ComposerCommand::Insert { capture_id, text } => {
                &&& execution matches CommandExecution::Complete(result)
                &&& self.insert_step(
                    after,
                    target,
                    after_target,
                    overlay,
                    capture_id,
                    text@,
                    result,
                )
            },
            ComposerCommand::Verify { lease_id, expected } => {
                &&& execution == CommandExecution::Complete(
                    self.verify_answer(&target, overlay, lease_id, expected@),
                )
                &&& after == self
                &&& after_target == target
            },
            ComposerCommand::Submit { lease_id, expected } => {
                &&& self.submit_step(after, &target, overlay, lease_id, expected, execution)
                &&& after_target == target
            },
            ComposerCommand::Keep { lease_id } => {
                &&& execution matches CommandExecution::Complete(result)
                &&& self.keep_step(after, target, after_target, overlay, lease_id, result)
            },
            ComposerCommand::AcknowledgeUnknown { lease_id } => {
                &&& execution matches CommandExecution::Complete(result)
                &&& self.acknowledge_step(after, target, after_target, lease_id, result)
            },
            ComposerCommand::Replace { lease_id, expected, replacement } => exists|
                outcome: ReplaceOutcome,
            |
                execution == replacement_execution(outcome) && #[trigger] self.replace_step(
                    after,
                    target,
                    after_target,
                    overlay,
                    lease_id,
                    expected,
                    replacement,
                    outcome,
                ),
        }
    }

    /// Carries a command out.
    pub fn prepare_command<T: ComposerControlTarget>(
        &mut self,
        command: ComposerCommand,
        target: &mut T,
        app_overlay_active: bool,
    ) -> (execution: CommandExecution)
        requires
            old(self).well_formed(),
        ensures
            final(self).well_formed(),
            old(self).command_step(
                *final(self),
                *old(target),
                *final(target),
                app_overlay_active,
                command,
                execution,
            ),
    {
        match command {
            ComposerCommand::AcquireSend => CommandExecution::Complete(
                self.acquire_send(&*target, app_overlay_active),
            ),
            ComposerCommand::Capture => CommandExecution::Complete(
                self.capture(&*target, app_overlay_active),
            ),
            ComposerCommand::Insert { capture_id, text } => CommandExecution::Complete(
                self.insert(target, app_overlay_active, capture_id, text),
            ),
            ComposerCommand::Verify { lease_id, expected } => CommandExecution::Complete(
                self.verify(&*target, app_overlay_active, lease_id, expected.as_str()),
            ),
            ComposerCommand::Submit { lease_id, expected } => self.submit(
                &*target,
                app_overlay_active,
                lease_id,
                expected,
            ),
            ComposerCommand::Keep { lease_id } => CommandExecution::Complete(
                self.keep(target, app_overlay_active, lease_id),
            ),
            ComposerCommand::AcknowledgeUnknown { lease_id } => CommandExecution::Complete(
                self.acknowledge_unknown(target, lease_id),
            ),
            ComposerCommand::Replace { lease_id, expected, replacement } => {
                let ghost before = *self;
                let ghost before_target = *target;
                let outcome: ReplaceOutcome = self.replace(
                    target,
                    app_overlay_active,
                    lease_id,
                    expected,
                    replacement,
                );
                assert(before.replace_step(
                    *self,
                    before_target,
                    *target,
                    app_overlay_active,
                    lease_id,
                    expected,
                    replacement,
                    outcome,
                ));
                execute_replacement(outcome)
            },
        }
    }

    /// Serves a request. One that waited too long is refused and has no effect.
    pub fn handle_ui_request<T: ComposerControlTarget>(
        &mut self,
        request: ComposerControlRequest,
        target: &mut T,
        app_overlay_active: bool,
    ) -> (outcome: RequestOutcome)
        requires
            old(self).well_formed(),
        ensures
            final(self).well_formed(),
            if request.expired {
                &&& outcome == RequestOutcome::Reply(refused(ErrorCode::UiTimeout))
                &&& *final(self) == *old(self)
                &&& *final(target) == *old(target)
            } else {
                exists|execution: CommandExecution|
                    outcome == execution_outcome(execution) && #[trigger] old(self).command_step(
                        *final(self),
                        *old(target),
                        *final(target),
                        app_overlay_active,
                        request.command,
                        execution,
                    )
            },
    {
        if request.expired {
            return RequestOutcome::Reply(WireResult::not_applied(ErrorCode::UiTimeout));
        }
        let execution: CommandExecution = self.prepare_command(
            request.command,
            target,
            app_overlay_active,
        );
        assert(old(self).command_step(
            *self,
            *old(target),
            *target,
            app_overlay_active,
            request.command,
            execution,
        ));
        outcome_of(execution)
    }

    /// Goes on with a request whose correction has been measured.
    pub fn handle_measured_correction(
        &mut self,
        proposal: CorrectionProposal,
        truncated: bool,
    ) -> (outcome: RequestOutcome)
        requires
            old(self).well_formed(),
            proposal.drafts@.len() > 0,
        ensures
            final(self).well_formed(),
            exists|replaced: ReplaceOutcome|
                outcome == execution_outcome(replacement_execution(replaced))
                    && #[trigger] old(self).admit_step(*final(self), proposal, truncated, replaced),
    {
        let replaced: ReplaceOutcome = self.admit_correction(proposal, truncated);
        assert(old(self).admit_step(*self, proposal, truncated, replaced));
        outcome_of(execute_replacement(replaced))
    }
}

} // verus!
