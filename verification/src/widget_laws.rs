//! What a native submission sends, and what it changes on screen.
use crate::fence::{FenceId, FenceTable};
use crate::submission::{
    client_message_id_of, ComposerLeaseId, NativeComposerSubmission, SubmittedComposerLease,
};
use crate::text::{is_white_space, lists_text, text_at};
use crate::turn::UserInput;
use crate::widget::{
    is_blank, ChatWidget, NativeComposerCommit, PlainComposerSubmission,
    PreparedNativeComposerSubmit, WidgetEffect,
};
use crate::wire::ErrorCode;
use vstd::prelude::*;
use vstd::string::*;

verus! {

/// Whatever keeps a submission from going out keeps a send from being acquired. A reserved send
/// takes an empty composer, and one of a plain draft takes a draft that names neither a skill nor
/// an app.
pub proof fn a_send_is_acquired_only_where_one_can_go_out(
    widget: ChatWidget,
    plain_text: Option<String>,
    skill_mentions: Option<bool>,
    app_mentions: Option<bool>,
    open: bool,
    direct: bool,
    plain: bool,
)
    requires
        call_ensures(ChatWidget::koenig_composer_submission_available, (&widget,), open),
        call_ensures(ChatWidget::direct_send_acquisition_available, (&widget,), direct),
        call_ensures(
            ChatWidget::plain_draft_send_acquisition_available,
            (&widget, &plain_text, skill_mentions, app_mentions),
            plain,
        ),
    ensures
        open <==> widget.composer_control_available && widget.session_configured
            && !widget.plan_streaming && !widget.suppress_queue_autosend
            && !widget.only_user_shell_commands_running,
        direct <==> open && widget.composer_is_strict_plain_empty,
        plain <==> open && plain_text is Some && skill_mentions != Some(true) && app_mentions
            != Some(true),
{
}

/// A text names something rich where either lookup found it; a lookup that could not be made finds
/// nothing.
pub proof fn a_mention_is_found_by_either_lookup(
    skills: Option<bool>,
    apps: Option<bool>,
    resolves: bool,
    swapped: bool,
)
    requires
        call_ensures(ChatWidget::plain_text_resolves_rich_mentions, (skills, apps), resolves),
        call_ensures(ChatWidget::plain_text_resolves_rich_mentions, (apps, skills), swapped),
    ensures
        resolves == swapped,
        skills == Some(true) ==> resolves,
        skills != Some(true) && apps != Some(true) ==> !resolves,
{
}

/// A text is blank where it holds no character but white space; the empty text is.
pub proof fn a_blank_text_holds_nothing(text: &str, blank: bool)
    requires
        call_ensures(is_blank, (text,), blank),
    ensures
        text@.len() == 0 ==> blank,
        !blank <==> exists|i: int| 0 <= i < text@.len() && !is_white_space(#[trigger] text@[i]),
{
}

/// What goes out, what is remembered as submitted and what is committed locally are one message:
/// the draft's own text, under one identity, in the thread that is shown. The commit is the one that
/// was asked for, and shows the message in the history unless a turn runs that it steers.
pub proof fn a_prepared_submission_is_the_draft(
    widget: ChatWidget,
    native: ComposerLeaseId,
    expected: &str,
    fence: FenceId,
    preview: Option<PlainComposerSubmission>,
    skill_mentions: Option<bool>,
    app_mentions: Option<bool>,
    ready: PreparedNativeComposerSubmit,
)
    requires
        call_ensures(
            ChatWidget::prepare_native_composer_submit,
            (&widget, native, expected, fence, preview, skill_mentions, app_mentions),
            Ok(ready),
        ),
    ensures
        preview is Some,
        ready.turn.items@.len() == 1,
        ready.turn.items@[0] matches UserInput::Text(sent) && sent@ == preview->0.submitted_text@,
        ready.submission.submitted_text@ == preview->0.submitted_text@,
        widget.thread_id is Some,
        ready.submission.thread_id@ == widget.thread_id->0@,
        ready.submission.direct_lease_id is None,
        ready.submission.leases@.len() > 0,
        ready.turn.composer_submission matches Some(sent_as) && sent_as@ == ready.submission@,
        ready.commit matches Some(commit) && {
            &&& commit.submission@ == ready.submission@
            &&& commit.message@ == preview->0.submitted_text@
            &&& commit.expected@ == expected@
            &&& commit.native == native
            &&& commit.fence == fence
            &&& commit.render_in_history <==> !widget.agent_turn_running
        },
{
    assert(ready.submission@.leases.len() == ready.submission.leases@.len());
}

/// Every owned range that names text of the draft is owned of the message too, as it was.
pub proof fn a_prepared_submission_owns_what_the_draft_owned(
    widget: ChatWidget,
    native: ComposerLeaseId,
    expected: &str,
    fence: FenceId,
    preview: PlainComposerSubmission,
    skill_mentions: Option<bool>,
    app_mentions: Option<bool>,
    ready: PreparedNativeComposerSubmit,
    at: int,
)
    requires
        call_ensures(
            ChatWidget::prepare_native_composer_submit,
            (&widget, native, expected, fence, Some(preview), skill_mentions, app_mentions),
            Ok(ready),
        ),
        0 <= at < preview.leases@.len(),
    ensures
        text_at(
            preview.submitted_text@,
            preview.leases@[at].range.start as int,
            preview.leases@[at].range.end as int,
        ) is Some <==> ready.submission@.leases.contains(preview.leases@[at]@),
{
    crate::submission_laws::kept_leases(preview.submitted_text@, preview.leases@, at);
    let lease = preview.leases@[at]@;
    if ready.submission@.leases.contains(lease) {
        let k = choose|k: int|
            0 <= k < ready.submission@.leases.len() && ready.submission@.leases[k] == lease;
        assert(text_at(preview.submitted_text@, lease.start, lease.end) is Some);
    }
}

/// A draft is refused for what stands in its way and for nothing else: no thread, a composer that
/// is not open, no plain draft, a mention, nothing that is owned, or no model.
pub proof fn a_draft_is_refused_for_a_reason(
    widget: ChatWidget,
    native: ComposerLeaseId,
    expected: &str,
    fence: FenceId,
    preview: Option<PlainComposerSubmission>,
    skill_mentions: Option<bool>,
    app_mentions: Option<bool>,
    prepared: Result<PreparedNativeComposerSubmit, ErrorCode>,
    open: bool,
    owner: int,
)
    requires
        call_ensures(
            ChatWidget::prepare_native_composer_submit,
            (&widget, native, expected, fence, preview, skill_mentions, app_mentions),
            prepared,
        ),
        call_ensures(ChatWidget::koenig_composer_submission_available, (&widget,), open),
    ensures
        widget.thread_id is None <==> prepared == Err::<PreparedNativeComposerSubmit, _>(
            ErrorCode::ComposerUnavailable,
        ),
        widget.thread_id is Some && prepared is Err ==> prepared->Err_0
            == ErrorCode::SubmissionUnavailable,
        !open || preview is None || skill_mentions == Some(true) || app_mentions == Some(true)
            ==> prepared is Err,
        widget.effective_model@.len() == 0 ==> prepared is Err,
        widget.thread_id is Some && open && skill_mentions != Some(true) && app_mentions != Some(
            true,
        ) && (exists|i: int|
            0 <= i < widget.effective_model@.len() && !is_white_space(
                #[trigger] widget.effective_model@[i],
            )) && (preview matches Some(draft) && 0 <= owner < draft.leases@.len() && text_at(
            draft.submitted_text@,
            draft.leases@[owner].range.start as int,
            draft.leases@[owner].range.end as int,
        ) is Some) ==> prepared is Ok,
{
    if let Some(draft) = preview {
        if 0 <= owner < draft.leases@.len() {
            crate::submission_laws::kept_leases(draft.submitted_text@, draft.leases@, owner);
        }
    }
}

/// A turn that is prepared runs as the widget is set: with its model, directory, permissions and
/// tier, in the collaboration mode that is in effect where modes are on and a mask is set, and with
/// a personality only where the model has one.
pub proof fn a_prepared_turn_runs_as_the_widget_is_set(
    widget: ChatWidget,
    native: ComposerLeaseId,
    expected: &str,
    fence: FenceId,
    preview: Option<PlainComposerSubmission>,
    skill_mentions: Option<bool>,
    app_mentions: Option<bool>,
    ready: PreparedNativeComposerSubmit,
)
    requires
        call_ensures(
            ChatWidget::prepare_native_composer_submit,
            (&widget, native, expected, fence, preview, skill_mentions, app_mentions),
            Ok(ready),
        ),
    ensures
        ready.turn.model == widget.effective_model,
        ready.turn.cwd == widget.cwd,
        ready.turn.approval_policy == widget.approval_policy,
        ready.turn.active_permission_profile == widget.active_permission_profile,
        ready.turn.effort == widget.effective_reasoning_effort,
        ready.turn.service_tier == widget.service_tier_update,
        ready.turn.approvals_reviewer is None,
        ready.turn.summary is None,
        ready.turn.final_output_json_schema is None,
        ready.turn.collaboration_mode is Some <==> widget.collaboration_modes_enabled
            && widget.collaboration_mask_active,
        ready.turn.collaboration_mode matches Some(mode) ==> mode
            == widget.effective_collaboration_mode,
        widget.personality_enabled && widget.model_supports_personality ==> ready.turn.personality
            == widget.personality,
        !(widget.personality_enabled && widget.model_supports_personality)
            ==> ready.turn.personality is None,
{
}

/// A reserved send goes out as it was reserved: the text that was asked for, in its thread, and
/// without anything to commit locally. It is refused where the thread, the text or the kind of the
/// submission is another, or where no session or no model is there.
pub proof fn a_reserved_send_goes_out_as_reserved(
    widget: ChatWidget,
    submission: NativeComposerSubmission,
    text: &str,
    prepared: Result<PreparedNativeComposerSubmit, ErrorCode>,
)
    requires
        call_ensures(ChatWidget::prepare_reserved_send, (&widget, submission, text), prepared),
    ensures
        prepared matches Ok(ready) ==> {
            &&& ready.commit is None
            &&& ready.submission == submission
            &&& ready.turn.items@.len() == 1
            &&& ready.turn.items@[0] matches UserInput::Text(sent)
            &&& sent@ == text@
            &&& ready.turn.composer_submission matches Some(sent_as)
            &&& sent_as@ == submission@
            &&& ready.turn.model == widget.effective_model
            &&& ready.turn.cwd == widget.cwd
            &&& ready.turn.approval_policy == widget.approval_policy
        },
        prepared matches Err(code) ==> (code == ErrorCode::ComposerUnavailable
            <==> widget.thread_id is None) && (code == ErrorCode::SubmissionUnavailable
            <==> widget.thread_id is Some),
        prepared is Ok <==> {
            &&& widget.thread_id matches Some(shown)
            &&& shown@ == submission.thread_id@
            &&& submission.direct_lease_id is Some
            &&& submission.submitted_text@ == text@
            &&& widget.session_configured
            &&& exists|i: int|
                0 <= i < widget.effective_model@.len() && !is_white_space(
                    #[trigger] widget.effective_model@[i],
                )
        },
{
}

/// A draft that has become the user's own, or whose thread is not shown, is not cleared any more.
pub proof fn a_draft_of_the_user_is_not_cleared(
    widget: &mut ChatWidget,
    commit: NativeComposerCommit,
    fences: FenceTable,
    draft_cleared: bool,
    admitted: bool,
    relinquished: bool,
    effects: Option<Vec<WidgetEffect>>,
)
    requires
        call_ensures(
            ChatWidget::admits_native_commit,
            (&*old(widget), &commit, &fences),
            admitted,
        ),
        call_ensures(
            NativeComposerCommit::local_clear_relinquished,
            (&commit, &fences),
            relinquished,
        ),
        call_ensures(
            ChatWidget::commit_native_composer_submit,
            (widget, &commit, &fences, draft_cleared),
            effects,
        ),
    ensures
        relinquished <==> (commit.fence.index < fences.fences@.len() ==> fences.fences@[
            commit.fence.index as int
        ].relinquished),
        admitted <==> !relinquished && (old(widget).thread_id matches Some(shown) && shown@
            == commit.submission.thread_id@),
        effects is Some <==> admitted && draft_cleared,
        effects is None ==> *final(widget) == *old(widget),
{
}

/// A committed message is put into the message history as it was sent. Where it is shown at once,
/// it is shown once and noted as rendered under its identity; where it steers a running turn, it
/// waits as a steer, and is not shown.
pub proof fn a_committed_message_is_shown_or_waits(
    widget: &mut ChatWidget,
    commit: NativeComposerCommit,
    fences: FenceTable,
    draft_cleared: bool,
    effects: Vec<WidgetEffect>,
    client_id: String,
)
    requires
        call_ensures(
            ChatWidget::commit_native_composer_submit,
            (widget, &commit, &fences, draft_cleared),
            Some(effects),
        ),
        call_ensures(
            client_message_id_of,
            (commit.submission.submission_id,),
            client_id,
        ),
    ensures
        exists|i: int|
            0 <= i < effects@.len() && #[trigger] effects@[i] == WidgetEffect::AppendMessageHistory(
                commit.message,
            ),
        (exists|i: int| 0 <= i < effects@.len() && #[trigger] effects@[i] is DisplayUserMessage)
            <==> commit.render_in_history,
        forall|i: int|
            0 <= i < effects@.len() && #[trigger] effects@[i] is DisplayUserMessage
                ==> effects@[i] == WidgetEffect::DisplayUserMessage(commit.message),
        commit.render_in_history ==> {
            &&& lists_text(
                final(widget).locally_rendered_composer_submission_ids@,
                client_id@,
            )
            &&& final(widget).user_turn_pending_start
            &&& final(widget).pending_steers@ == old(widget).pending_steers@
        },
        !commit.render_in_history ==> {
            &&& final(widget).pending_steers@.len() == old(widget).pending_steers@.len() + 1
            &&& final(widget).pending_steers@.drop_last() == old(widget).pending_steers@
            &&& final(widget).pending_steers@.last().message == commit.message
            &&& final(widget).pending_steers@.last().composer_submission@ == commit.submission@
            &&& final(widget).locally_rendered_composer_submission_ids@ == old(widget).locally_rendered_composer_submission_ids@
            &&& final(widget).user_turn_pending_start == old(widget).user_turn_pending_start
            &&& !final(widget).saw_plan_item_this_turn
        },
        !final(widget).needs_final_message_separator,
        final(widget).thread_id == old(widget).thread_id,
{
    assert(effects@[2] == WidgetEffect::AppendMessageHistory(commit.message));
    if commit.render_in_history {
        assert(effects@[4] is DisplayUserMessage);
        let listed = final(widget).locally_rendered_composer_submission_ids@;
        if !lists_text(old(widget).locally_rendered_composer_submission_ids@, client_id@) {
            assert(listed[listed.len() - 1]@ == client_id@);
        }
    }
}

/// An identity that was rendered stays noted, and is noted once.
pub proof fn rendered_identities_are_noted_once(
    widget: &mut ChatWidget,
    commit: NativeComposerCommit,
    fences: FenceTable,
    draft_cleared: bool,
    effects: Option<Vec<WidgetEffect>>,
    other: Seq<char>,
)
    requires
        call_ensures(
            ChatWidget::commit_native_composer_submit,
            (widget, &commit, &fences, draft_cleared),
            effects,
        ),
    ensures
        lists_text(old(widget).locally_rendered_composer_submission_ids@, other) ==> lists_text(
            final(widget).locally_rendered_composer_submission_ids@,
            other,
        ),
        crate::interactive::text_views(
            old(widget).locally_rendered_composer_submission_ids@,
        ).no_duplicates() ==> crate::interactive::text_views(
            final(widget).locally_rendered_composer_submission_ids@,
        ).no_duplicates(),
{
    let before = old(widget).locally_rendered_composer_submission_ids@;
    let after = final(widget).locally_rendered_composer_submission_ids@;
    if after != before {
        let last = after.len() - 1;
        assert(after.drop_last() == before);
        assert forall|i: int| 0 <= i < before.len() implies after[i] == before[i] by {
            assert(after.drop_last()[i] == after[i]);
        }
        if lists_text(before, other) {
            let i = choose|i: int| 0 <= i < before.len() && (#[trigger] before[i])@ == other;
            assert(after[i]@ == other);
        }
        let old_views = crate::interactive::text_views(before);
        let views = crate::interactive::text_views(after);
        if old_views.no_duplicates() {
            assert forall|i: int, j: int|
                0 <= i < views.len() && 0 <= j < views.len() && i != j implies views[i]
                != views[j] by {
                if i < last && j < last {
                    assert(views[i] == old_views[i] && views[j] == old_views[j]);
                } else {
                    let k = if i < last {
                        i
                    } else {
                        j
                    };
                    assert(before[k]@ == views[k]);
                    assert(lists_text(before, views[k]));
                }
            }
        }
    }
}

/// A commit is seen on screen as the start of work: reasoning is cleared, the status says so, the
/// message goes into the history, and the nudge towards the plan mode is refreshed last. A message
/// that is shown can be taken back for editing; one that waits is previewed.
pub proof fn a_commit_is_seen_as_the_start_of_work(
    widget: &mut ChatWidget,
    commit: NativeComposerCommit,
    fences: FenceTable,
    draft_cleared: bool,
    effects: Vec<WidgetEffect>,
)
    requires
        call_ensures(
            ChatWidget::commit_native_composer_submit,
            (widget, &commit, &fences, draft_cleared),
            Some(effects),
        ),
    ensures
        effects@.first() is ClearReasoning,
        effects@[1] matches WidgetEffect::SetStatusHeader(header) && header@ == "Working"@,
        effects@.last() is RefreshPlanModeNudge,
        (exists|i: int|
            0 <= i < effects@.len() && #[trigger] effects@[i]
                == WidgetEffect::RecordCancelEditCandidate(commit.message))
            <==> commit.render_in_history,
        (exists|i: int|
            0 <= i < effects@.len() && #[trigger] effects@[i] is RefreshPendingInputPreview)
            <==> !commit.render_in_history,
{
    if commit.render_in_history {
        assert(effects@[3] == WidgetEffect::RecordCancelEditCandidate(commit.message));
    } else {
        assert(effects@[3] is RefreshPendingInputPreview);
    }
}

} // verus!
