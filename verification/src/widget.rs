//! Two-phase native composer submission.
//!
//! Preparation is read-only and admits only an exact plain draft. App-server acceptance happens
//! before [`ChatWidget::commit_native_composer_submit`] clears or records the draft, so a definite
//! refusal leaves the composer byte-for-byte untouched.
use crate::fence::{is_let_go, FenceId, FenceTable, SubmitFence};
use crate::ids::is_version_4;
use crate::submission::{
    client_message_id, leases_in, ComposerLeaseId, NativeComposerSubmission, SubmissionView,
    SubmittedComposerLease,
};
use crate::text::{copy_option, finds_text, is_white, is_white_space, lists_text, same_text};
use crate::turn::{UserInput, UserTurn};
use crate::wire::ErrorCode;
use vstd::prelude::*;
use vstd::string::*;

verus! {

/// What the chat widget shows and does, as far as native submission depends on it.
pub struct ChatWidget {
    pub thread_id: Option<String>,
    pub composer_control_available: bool,
    pub session_configured: bool,
    pub plan_streaming: bool,
    pub suppress_queue_autosend: bool,
    pub only_user_shell_commands_running: bool,
    /// The composer is empty, with nothing attached and nothing half typed.
    pub composer_is_strict_plain_empty: bool,
    pub agent_turn_running: bool,
    pub cwd: String,
    pub approval_policy: String,
    pub active_permission_profile: Option<String>,
    pub effective_model: String,
    pub effective_reasoning_effort: Option<String>,
    pub service_tier_update: Option<String>,
    pub collaboration_modes_enabled: bool,
    pub collaboration_mask_active: bool,
    /// The collaboration mode that is in effect, mask included.
    pub effective_collaboration_mode: String,
    pub personality: Option<String>,
    pub personality_enabled: bool,
    pub model_supports_personality: bool,
    pub locally_rendered_composer_submission_ids: Vec<String>,
    pub user_turn_pending_start: bool,
    pub pending_steers: Vec<PendingSteer>,
    pub saw_plan_item_this_turn: bool,
    pub needs_final_message_separator: bool,
}

/// The draft that the composer would submit, and which parts of it are owned.
pub struct PlainComposerSubmission {
    pub submitted_text: String,
    pub leases: Vec<SubmittedComposerLease>,
}

/// A message that waits to steer the running turn.
pub struct PendingSteer {
    pub message: String,
    pub composer_submission: NativeComposerSubmission,
}

/// Exact local composer commit retained across an ambiguous app-server acknowledgement.
///
/// The fence is let go before any queued user edit is applied, so that a later notification
/// cannot clear text that is the user's own.
pub struct NativeComposerCommit {
    pub native: ComposerLeaseId,
    pub expected: String,
    pub message: String,
    pub render_in_history: bool,
    pub submission: NativeComposerSubmission,
    pub fence: FenceId,
}

/// A request ready for the app-server, and the local commit that awaits its acceptance. It carries
/// composer text, so it has no `Debug`.
pub struct PreparedNativeComposerSubmit {
    pub turn: UserTurn,
    pub submission: NativeComposerSubmission,
    pub commit: Option<NativeComposerCommit>,
}

/// Something that the widget does on screen.
pub enum WidgetEffect {
    ClearReasoning,
    SetStatusHeader(String),
    AppendMessageHistory(String),
    RecordCancelEditCandidate(String),
    DisplayUserMessage(String),
    RefreshPendingInputPreview,
    RefreshPlanModeNudge,
}

impl NativeComposerCommit {
    /// The draft may no longer be cleared.
    pub fn local_clear_relinquished(&self, fences: &FenceTable) -> (relinquished: bool)
        ensures
            relinquished == is_let_go(fences.fences@, self.fence),
    {
        fences.is_relinquished(self.fence)
    }
}

/// The text holds nothing but white space.
pub open spec fn is_blank_text(text: Seq<char>) -> bool {
    forall|i: int| 0 <= i < text.len() ==> is_white_space(#[trigger] text[i])
}

/// `true` exactly for text that holds nothing but white space.
pub fn is_blank(text: &str) -> (blank: bool)
    ensures
        blank == is_blank_text(text@),
{
    let mut blank = true;
    for c in chars: text.chars()
        invariant
            chars.seq() == text@,
            blank == is_blank_text(text@.take(chars.index() as int)),
    {
        let white: bool = is_white(c);
        proof {
            let at = chars.index() as int;
            let longer = text@.take(at + 1);
            assert(longer[at] == c);
            assert forall|i: int| 0 <= i < at implies longer[i] == text@.take(at)[i] by {}
            if is_blank_text(longer) {
                assert forall|i: int| 0 <= i < at implies is_white_space(
                    #[trigger] text@.take(at)[i],
                ) by {
                    assert(longer[i] == text@.take(at)[i]);
                }
            }
        }
        blank = blank && white;
    }
    assert(text@.take(text@.len() as int) =~= text@);
    blank
}

/// `after` is the set `before` with `client_id`, which is listed once.
pub open spec fn is_rendered_under(
    before: Seq<String>,
    after: Seq<String>,
    client_id: Seq<char>,
) -> bool {
    if lists_text(before, client_id) {
        after == before
    } else {
        &&& after.len() == before.len() + 1
        &&& after.drop_last() == before
        &&& after.last()@ == client_id
    }
}

/// Lists `client_id`, unless it is listed.
fn note_rendered(listed: &mut Vec<String>, client_id: String)
    ensures
        is_rendered_under(old(listed)@, final(listed)@, client_id@),
{
    if !finds_text(listed, client_id.as_str()) {
        let ghost before = listed@;
        listed.push(client_id);
        assert(listed@.drop_last() =~= before);
    }
}

/// A mention lookup that may not have been possible: whether it found anything.
pub open spec fn found(lookup: Option<bool>) -> bool {
    lookup == Some(true)
}

impl ChatWidget {
    /// Semantic submission is possible at all.
    pub open spec fn submission_open(self) -> bool {
        &&& self.composer_control_available
        &&& self.session_configured
        &&& !self.plan_streaming
        &&& !self.suppress_queue_autosend
        &&& !self.only_user_shell_commands_running
    }

    pub fn koenig_composer_submission_available(&self) -> (available: bool)
        ensures
            available == self.submission_open(),
    {
        self.composer_control_available && self.session_configured && !self.plan_streaming
            && !self.suppress_queue_autosend && !self.only_user_shell_commands_running
    }

    pub fn direct_send_acquisition_available(&self) -> (available: bool)
        ensures
            available == (self.submission_open() && self.composer_is_strict_plain_empty),
    {
        self.koenig_composer_submission_available() && self.composer_is_strict_plain_empty
    }

    /// Whether a plain draft can be captured for a send. `plain_text` is the draft where it is
    /// strictly plain; the lookups are those of [`Self::plain_text_resolves_rich_mentions`].
    pub fn plain_draft_send_acquisition_available(
        &self,
        plain_text: &Option<String>,
        skill_mentions: Option<bool>,
        app_mentions: Option<bool>,
    ) -> (available: bool)
        ensures
            available == (self.submission_open() && plain_text is Some && !found(skill_mentions)
                && !found(app_mentions)),
    {
        if !self.koenig_composer_submission_available() {
            return false;
        }
        plain_text.is_some() && !Self::plain_text_resolves_rich_mentions(
            skill_mentions,
            app_mentions,
        )
    }

    /// Plain text names a skill or an app, so that sending it would not send plain text. Each
    /// lookup says whether it found a mention, where skills or apps are known.
    pub fn plain_text_resolves_rich_mentions(
        skill_mentions: Option<bool>,
        app_mentions: Option<bool>,
    ) -> (resolves: bool)
        ensures
            resolves == (found(skill_mentions) || found(app_mentions)),
    {
        if let Some(found) = skill_mentions {
            if found {
                return true;
            }
        }
        match app_mentions {
            Some(found) => found,
            None => false,
        }
    }

    /// The turn carries `text` and `submission`, with the model and the settings of the widget.
    pub open spec fn is_turn(
        self,
        turn: UserTurn,
        text: Seq<char>,
        submission: SubmissionView,
    ) -> bool {
        &&& turn.items@.len() == 1
        &&& turn.items@[0] matches UserInput::Text(sent)
        &&& sent@ == text
        &&& turn.cwd == self.cwd
        &&& turn.approval_policy == self.approval_policy
        &&& turn.approvals_reviewer is None
        &&& turn.active_permission_profile == self.active_permission_profile
        &&& turn.model == self.effective_model
        &&& turn.effort == self.effective_reasoning_effort
        &&& turn.summary is None
        &&& turn.service_tier == self.service_tier_update
        &&& turn.final_output_json_schema is None
        &&& turn.collaboration_mode == (if self.collaboration_modes_enabled
            && self.collaboration_mask_active {
            Some(self.effective_collaboration_mode)
        } else {
            None
        })
        &&& turn.personality == (if self.personality_enabled && self.model_supports_personality {
            self.personality
        } else {
            None
        })
        &&& turn.composer_submission matches Some(sent_as)
        &&& sent_as@ == submission
    }

    /// The user turn that sends `text`; none where no model is chosen. An editor's context is up to
    /// the host, which may add it to the items.
    fn prepare_koenig_user_turn(&self, text: &str, submission: NativeComposerSubmission) -> (turn:
        Result<UserTurn, ErrorCode>)
        ensures
            match turn {
                Ok(turn) => !is_blank_text(self.effective_model@) && self.is_turn(
                    turn,
                    text@,
                    submission@,
                ),
                Err(code) => is_blank_text(self.effective_model@) && code
                    == ErrorCode::SubmissionUnavailable,
            },
    {
        if is_blank(self.effective_model.as_str()) {
            return Err(ErrorCode::SubmissionUnavailable);
        }
        let mut items: Vec<UserInput> = Vec::new();
        items.push(UserInput::Text(String::from_str(text)));
        let with_mode: bool = self.collaboration_modes_enabled && self.collaboration_mask_active;
        let with_personality: bool = self.personality_enabled && self.model_supports_personality;
        Ok(
            UserTurn {
                items,
                cwd: self.cwd.clone(),
                approval_policy: self.approval_policy.clone(),
                approvals_reviewer: None,
                active_permission_profile: copy_option(&self.active_permission_profile),
                model: self.effective_model.clone(),
                effort: copy_option(&self.effective_reasoning_effort),
                summary: None,
                service_tier: copy_option(&self.service_tier_update),
                final_output_json_schema: None,
                collaboration_mode: if with_mode {
                    Some(self.effective_collaboration_mode.clone())
                } else {
                    None
                },
                personality: if with_personality {
                    copy_option(&self.personality)
                } else {
                    None
                },
                composer_submission: Some(submission),
            },
        )
    }

    /// Why the draft cannot be submitted.
    pub open spec fn submit_refusal(
        self,
        preview: Option<PlainComposerSubmission>,
        skill_mentions: Option<bool>,
        app_mentions: Option<bool>,
    ) -> Option<ErrorCode> {
        if self.thread_id is None {
            Some(ErrorCode::ComposerUnavailable)
        } else if !self.submission_open() || preview is None || found(skill_mentions) || found(
            app_mentions,
        ) || leases_in(preview->0.submitted_text@, preview->0.leases@).len() == 0
            || is_blank_text(self.effective_model@) {
            Some(ErrorCode::SubmissionUnavailable)
        } else {
            None
        }
    }

    /// Prepares the submission of the draft in which `native` owns `expected`. `preview` is what
    /// the composer would submit, where the draft is strictly plain and the text still owned.
    pub fn prepare_native_composer_submit(
        &self,
        native: ComposerLeaseId,
        expected: &str,
        fence: FenceId,
        preview: Option<PlainComposerSubmission>,
        skill_mentions: Option<bool>,
        app_mentions: Option<bool>,
    ) -> (prepared: Result<PreparedNativeComposerSubmit, ErrorCode>)
        ensures
            match prepared {
                Err(code) => self.submit_refusal(preview, skill_mentions, app_mentions) == Some(
                    code,
                ),
                Ok(ready) => {
                    let submission = ready.submission@;
                    &&& self.submit_refusal(preview, skill_mentions, app_mentions) is None
                    &&& is_version_4(submission.submission_id)
                    &&& submission == (SubmissionView {
                        submission_id: submission.submission_id,
                        thread_id: self.thread_id->0@,
                        submitted_text: preview->0.submitted_text@,
                        leases: leases_in(preview->0.submitted_text@, preview->0.leases@),
                        direct_lease_id: None,
                    })
                    &&& submission.well_formed()
                    &&& self.is_turn(ready.turn, preview->0.submitted_text@, submission)
                    &&& ready.commit matches Some(commit)
                    &&& commit.native == native
                    &&& commit.expected@ == expected@
                    &&& commit.message@ == preview->0.submitted_text@
                    &&& commit.render_in_history == !self.agent_turn_running
                    &&& commit.submission@ == submission
                    &&& commit.fence == fence
                },
            },
    {
        let thread_id: String = match &self.thread_id {
            Some(thread_id) => thread_id.clone(),
            None => return Err(ErrorCode::ComposerUnavailable),
        };
        if !self.koenig_composer_submission_available() {
            return Err(ErrorCode::SubmissionUnavailable);
        }
        let preview: PlainComposerSubmission = match preview {
            Some(preview) => preview,
            None => return Err(ErrorCode::SubmissionUnavailable),
        };
        if Self::plain_text_resolves_rich_mentions(skill_mentions, app_mentions) {
            return Err(ErrorCode::SubmissionUnavailable);
        }
        let submission: NativeComposerSubmission = match NativeComposerSubmission::new(
            thread_id,
            preview.submitted_text.as_str(),
            preview.leases,
        ) {
            Some(submission) => submission,
            None => return Err(ErrorCode::SubmissionUnavailable),
        };
        let turn: UserTurn = match self.prepare_koenig_user_turn(
            preview.submitted_text.as_str(),
            submission.copied(),
        ) {
            Ok(turn) => turn,
            Err(code) => return Err(code),
        };
        let commit = NativeComposerCommit {
            native,
            expected: String::from_str(expected),
            message: preview.submitted_text,
            render_in_history: !self.agent_turn_running,
            submission: submission.copied(),
            fence,
        };
        Ok(PreparedNativeComposerSubmit { turn, submission, commit: Some(commit) })
    }

    /// Prepares a composer-free submission. The composer is neither looked at nor touched.
    pub fn prepare_reserved_send(&self, submission: NativeComposerSubmission, text: &str) -> (
    prepared: Result<PreparedNativeComposerSubmit, ErrorCode>)
        ensures
            match prepared {
                Err(code) => if self.thread_id is None {
                    code == ErrorCode::ComposerUnavailable
                } else {
                    &&& code == ErrorCode::SubmissionUnavailable
                    &&& submission.thread_id@ != self.thread_id->0@
                        || submission.direct_lease_id is None || submission.submitted_text@ != text@
                        || !self.session_configured || is_blank_text(self.effective_model@)
                },
                Ok(ready) => {
                    &&& self.thread_id is Some
                    &&& submission.thread_id@ == self.thread_id->0@
                    &&& submission.direct_lease_id is Some
                    &&& submission.submitted_text@ == text@
                    &&& self.session_configured
                    &&& !is_blank_text(self.effective_model@)
                    &&& self.is_turn(ready.turn, text@, submission@)
                    &&& ready.submission == submission
                    &&& ready.commit is None
                },
            },
    {
        let thread_id: &String = match &self.thread_id {
            Some(thread_id) => thread_id,
            None => return Err(ErrorCode::ComposerUnavailable),
        };
        if !same_text(submission.thread_id(), thread_id.as_str()) || !submission.is_direct()
            || !same_text(submission.submitted_text(), text) || !self.session_configured {
            return Err(ErrorCode::SubmissionUnavailable);
        }
        match self.prepare_koenig_user_turn(text, submission.copied()) {
            Ok(turn) => Ok(PreparedNativeComposerSubmit { turn, submission, commit: None }),
            Err(code) => Err(code),
        }
    }

    /// The commit may still clear the draft: its fence stands and its thread is shown.
    pub open spec fn admits(self, commit: NativeComposerCommit, fences: Seq<SubmitFence>) -> bool {
        &&& !is_let_go(fences, commit.fence)
        &&& self.thread_id is Some
        &&& self.thread_id->0@ == commit.submission.thread_id@
    }

    /// `true` exactly when the commit may still clear the draft. Only then is the composer asked
    /// to.
    pub fn admits_native_commit(&self, commit: &NativeComposerCommit, fences: &FenceTable) -> (
    admits: bool)
        ensures
            admits == self.admits(*commit, fences.fences@),
    {
        if commit.local_clear_relinquished(fences) {
            return false;
        }
        match &self.thread_id {
            Some(thread_id) => same_text(thread_id.as_str(), commit.submission.thread_id()),
            None => false,
        }
    }

    /// What the widget is once a commit cleared the draft, and what it does on screen.
    pub open spec fn commit_step(
        self,
        after: Self,
        commit: NativeComposerCommit,
        effects: Seq<WidgetEffect>,
    ) -> bool {
        let rendered = commit.render_in_history;
        &&& after == (ChatWidget {
            locally_rendered_composer_submission_ids:
                after.locally_rendered_composer_submission_ids,
            user_turn_pending_start: after.user_turn_pending_start,
            pending_steers: after.pending_steers,
            saw_plan_item_this_turn: after.saw_plan_item_this_turn,
            needs_final_message_separator: after.needs_final_message_separator,
            ..self
        })
        &&& after.user_turn_pending_start == (self.user_turn_pending_start || rendered)
        &&& after.saw_plan_item_this_turn == (self.saw_plan_item_this_turn && rendered)
        &&& !after.needs_final_message_separator
        &&& if rendered {
            &&& after.pending_steers@ == self.pending_steers@
            &&& is_rendered_under(
                self.locally_rendered_composer_submission_ids@,
                after.locally_rendered_composer_submission_ids@,
                client_message_id(commit.submission.submission_id),
            )
        } else {
            &&& after.locally_rendered_composer_submission_ids@
                == self.locally_rendered_composer_submission_ids@
            &&& after.pending_steers@.len() == self.pending_steers@.len() + 1
            &&& after.pending_steers@.drop_last() == self.pending_steers@
            &&& after.pending_steers@.last().message == commit.message
            &&& after.pending_steers@.last().composer_submission@ == commit.submission@
        }
        &&& effects.len() == if rendered {
            6int
        } else {
            5int
        }
        &&& effects[0] is ClearReasoning
        &&& effects[1] matches WidgetEffect::SetStatusHeader(header) && header@ == "Working"@
        &&& effects[2] == WidgetEffect::AppendMessageHistory(commit.message)
        &&& rendered ==> effects[3] == WidgetEffect::RecordCancelEditCandidate(commit.message)
        &&& rendered ==> effects[4] == WidgetEffect::DisplayUserMessage(commit.message)
        &&& !rendered ==> effects[3] is RefreshPendingInputPreview
        &&& effects.last() is RefreshPlanModeNudge
    }

    /// Commits a submission locally. `draft_cleared` is what the composer answered when it was
    /// asked to clear the exact draft, which it is only where the commit is admitted.
    pub fn commit_native_composer_submit(
        &mut self,
        commit: &NativeComposerCommit,
        fences: &FenceTable,
        draft_cleared: bool,
    ) -> (effects: Option<Vec<WidgetEffect>>)
        ensures
            effects is Some == (old(self).admits(*commit, fences.fences@) && draft_cleared),
            match effects {
                None => *final(self) == *old(self),
                Some(done) => old(self).commit_step(*final(self), *commit, done@),
            },
    {
        if !self.admits_native_commit(commit, fences) || !draft_cleared {
            return None;
        }
        let mut effects: Vec<WidgetEffect> = Vec::new();
        effects.push(WidgetEffect::ClearReasoning);
        effects.push(WidgetEffect::SetStatusHeader(String::from_str("Working")));
        effects.push(WidgetEffect::AppendMessageHistory(commit.message.clone()));
        if commit.render_in_history {
            note_rendered(
                &mut self.locally_rendered_composer_submission_ids,
                commit.submission.client_user_message_id(),
            );
            self.user_turn_pending_start = true;
            effects.push(WidgetEffect::RecordCancelEditCandidate(commit.message.clone()));
            effects.push(WidgetEffect::DisplayUserMessage(commit.message.clone()));
        } else {
            self.pending_steers.push(
                PendingSteer {
                    message: commit.message.clone(),
                    composer_submission: commit.submission.copied(),
                },
            );
            self.saw_plan_item_this_turn = false;
            effects.push(WidgetEffect::RefreshPendingInputPreview);
            assert(self.pending_steers@.drop_last() =~= old(self).pending_steers@);
        }
        self.needs_final_message_separator = false;
        effects.push(WidgetEffect::RefreshPlanModeNudge);
        Some(effects)
    }
}

} // verus!
