use composer_control::control::ComposerControlState;
use composer_control::fence::{FenceId, FenceTable, SubmitFence};
use composer_control::ids::Uuid;
use composer_control::ledger::Ledger;
use composer_control::pending::{
    surviving_composer_submission_ids, ClearReport, ComposerSubmissionTransition, DispatchReply,
    DispatchReport, NotifiedOutcome,
};
use composer_control::receipt::SubmissionDispatchOutcome;
use composer_control::replay::{RollbackStep, ThreadRollbackOrigin};
use composer_control::routing::{App, ServerNotification, Thread, ThreadItem, Turn};
use composer_control::submission::{NativeComposerSubmission, SubmittedComposerLease};
use composer_control::turn::{TurnConfig, UserInput};
use composer_control::widget::{
    is_blank, ChatWidget, NativeComposerCommit, PlainComposerSubmission, WidgetEffect,
};
use composer_control::wire::ErrorCode;

const THREAD: &str = "thread";

fn widget(thread_id: Option<&str>) -> ChatWidget {
    ChatWidget {
        thread_id: thread_id.map(str::to_string),
        composer_control_available: true,
        session_configured: true,
        plan_streaming: false,
        suppress_queue_autosend: false,
        only_user_shell_commands_running: false,
        composer_is_strict_plain_empty: true,
        agent_turn_running: false,
        cwd: "/work".to_string(),
        approval_policy: "on-request".to_string(),
        active_permission_profile: Some("profile".to_string()),
        effective_model: "model".to_string(),
        effective_reasoning_effort: Some("high".to_string()),
        service_tier_update: None,
        collaboration_modes_enabled: true,
        collaboration_mask_active: true,
        effective_collaboration_mode: "pair".to_string(),
        personality: Some("friendly".to_string()),
        personality_enabled: true,
        model_supports_personality: false,
        locally_rendered_composer_submission_ids: Vec::new(),
        user_turn_pending_start: false,
        pending_steers: Vec::new(),
        saw_plan_item_this_turn: true,
        needs_final_message_separator: true,
    }
}

fn app() -> App {
    App {
        chat_widget: widget(Some(THREAD)),
        turn_config: TurnConfig {
            approvals_reviewer: "user".to_string(),
            effective_permission_profile: "effective".to_string(),
            runtime_permission_profile_override: None,
            user_visible_workspace_roots: Vec::new(),
        },
        active_thread_id: Some(THREAD.to_string()),
        active_receiver_held: true,
        primary_thread_id: None,
        primary_session_configured: None,
        pending_primary_events: Vec::new(),
        pending_shutdown_exit_thread_id: None,
        rollback_pending: false,
        active_side_parent_thread_id: None,
        pending_app_server_requests: Vec::new(),
        thread_event_channels: Vec::new(),
        thread_event_channel_capacity: 8,
        thread_event_listener_tasks: Vec::new(),
        side_threads: Vec::new(),
        agent_navigation: Vec::new(),
        pending_composer_submissions: Ledger::new(),
        composer_submission_transitions: Vec::new(),
    }
}

fn submission(text: &str) -> NativeComposerSubmission {
    NativeComposerSubmission::new(
        THREAD.to_string(),
        text,
        vec![SubmittedComposerLease {
            id: 1,
            range: 0..text.len(),
        }],
    )
    .expect("the whole text is owned")
}

fn commit(submission: &NativeComposerSubmission, fence: FenceId) -> NativeComposerCommit {
    NativeComposerCommit {
        native: 1,
        expected: submission.submitted_text().to_string(),
        message: submission.submitted_text().to_string(),
        render_in_history: true,
        submission: submission.copied(),
        fence,
    }
}

fn completed(submission: &NativeComposerSubmission) -> ServerNotification {
    ServerNotification::ItemCompleted {
        item: ThreadItem::UserMessage {
            client_id: Some(submission.client_user_message_id()),
        },
    }
}

fn thread_with(client_ids: &[String]) -> Thread {
    Thread {
        turns: vec![Turn {
            id: "turn".to_string(),
            items: client_ids
                .iter()
                .map(|client_id| ThreadItem::UserMessage {
                    client_id: Some(client_id.clone()),
                })
                .collect(),
        }],
    }
}

fn last_transition(app: &App) -> &ComposerSubmissionTransition {
    app.composer_submission_transitions
        .last()
        .expect("something became of a submission")
}

#[test]
fn fences_rise_once_and_are_disclosed_once() {
    let mut fence = SubmitFence::new();
    assert!(!fence.is_relinquished());
    assert!(fence.disclose_once());
    assert!(!fence.disclose_once());
    fence.relinquish();
    assert!(fence.is_relinquished());

    let mut fences = FenceTable::new();
    let first = fences.raise();
    let second = fences.raise();
    fences.relinquish(first);
    assert!(fences.is_relinquished(first));
    assert!(!fences.is_relinquished(second));
    assert!(fences.disclose_once(second));
    assert!(!fences.disclose_once(second));
    assert!(fences.is_relinquished(FenceId { index: 2 }));
}

#[test]
fn our_messages_are_found_again_in_a_thread() {
    let own = submission("owned");
    let thread = thread_with(&[
        own.client_user_message_id(),
        "koenig-composer-not-an-identifier".to_string(),
        "someone-else".to_string(),
        own.client_user_message_id(),
    ]);
    let (client_ids, submission_ids) = surviving_composer_submission_ids(&thread);
    assert_eq!(
        client_ids,
        vec![
            own.client_user_message_id(),
            "koenig-composer-not-an-identifier".to_string()
        ]
    );
    assert_eq!(submission_ids, vec![own.submission_id()]);
}

#[test]
fn an_accepted_submission_clears_its_draft() {
    let mut app = app();
    let mut fences = FenceTable::new();
    let fence = fences.raise();
    let sent = submission("hello");
    let local = commit(&sent, fence);
    assert_eq!(
        app.dispatch_native_composer_submit(&sent, Some(local), &Some(THREAD.to_string())),
        Ok(())
    );
    let (outcome, report) = app.finish_native_composer_submit(
        &sent,
        DispatchReply::Accepted("turn".to_string()),
        &fences,
        true,
    );
    assert_eq!(outcome, SubmissionDispatchOutcome::Accepted);
    let effects = match report {
        DispatchReport::Committed(effects) => effects,
        _ => panic!("the draft was cleared"),
    };
    assert_eq!(effects.len(), 6);
    assert!(matches!(
        &effects[1],
        WidgetEffect::SetStatusHeader(header) if header == "Working"
    ));
    assert!(matches!(
        &effects[4],
        WidgetEffect::DisplayUserMessage(message) if message == "hello"
    ));
    assert_eq!(
        app.chat_widget.locally_rendered_composer_submission_ids,
        vec![sent.client_user_message_id()]
    );
    assert!(app.chat_widget.user_turn_pending_start);
    assert!(matches!(
        app.note_composer_submission_notification(&completed(&sent), &fences),
        NotifiedOutcome::Committed
    ));
    assert!(matches!(
        last_transition(&app),
        ComposerSubmissionTransition::Committed(done)
            if done.submission_id() == sent.submission_id()
    ));
    assert!(app.pending_composer_submissions.is_empty());
}

#[test]
fn an_accepted_submission_whose_draft_stays_is_not_sent_again() {
    let mut app = app();
    let mut fences = FenceTable::new();
    let fence = fences.raise();
    let sent = submission("hello");
    let local = commit(&sent, fence);
    let _ = app.dispatch_native_composer_submit(&sent, Some(local), &Some(THREAD.to_string()));
    let (outcome, report) = app.finish_native_composer_submit(
        &sent,
        DispatchReply::Accepted("turn".to_string()),
        &fences,
        false,
    );
    assert_eq!(outcome, SubmissionDispatchOutcome::AcceptedButUncommitted);
    assert!(matches!(
        report,
        DispatchReport::Failed(message) if message
            == "Koenig send was accepted, but the exact draft could not be cleared. Automatic \
                resubmission is disabled."
    ));
    assert!(matches!(
        app.note_composer_submission_notification(&completed(&sent), &fences),
        NotifiedOutcome::ClearDraft(id) if id == sent.submission_id()
    ));
    assert!(matches!(
        app.finish_notified_clear(sent.submission_id(), &fences, false),
        ClearReport::Failed(message) if message
            == "Koenig send committed, but its exact retained draft could not be cleared. \
                Submission remains fenced."
    ));
    assert_eq!(
        app.resolve_notified_composer_submissions_for_active_thread(&fences),
        vec![sent.submission_id()]
    );
    assert!(matches!(
        app.finish_notified_clear(sent.submission_id(), &fences, true),
        ClearReport::Cleared(effects) if effects.len() == 6
    ));
    assert!(app.pending_composer_submissions.is_empty());
    assert!(matches!(
        app.finish_notified_clear(sent.submission_id(), &fences, true),
        ClearReport::Nothing
    ));
}

#[test]
fn a_draft_that_became_the_users_own_is_not_cleared() {
    let mut app = app();
    let mut fences = FenceTable::new();
    let fence = fences.raise();
    let sent = submission("hello");
    let local = commit(&sent, fence);
    let _ = app.dispatch_native_composer_submit(&sent, Some(local), &Some(THREAD.to_string()));
    fences.relinquish(fence);
    let (outcome, _) = app.finish_native_composer_submit(
        &sent,
        DispatchReply::Accepted("turn".to_string()),
        &fences,
        true,
    );
    assert_eq!(outcome, SubmissionDispatchOutcome::AcceptedButUncommitted);
    assert!(matches!(
        app.note_composer_submission_notification(&completed(&sent), &fences),
        NotifiedOutcome::Committed
    ));
}

#[test]
fn a_submission_waits_for_its_thread_to_be_shown() {
    let mut app = app();
    let mut fences = FenceTable::new();
    let fence = fences.raise();
    let sent = submission("hello");
    let local = commit(&sent, fence);
    let _ = app.dispatch_native_composer_submit(&sent, Some(local), &Some(THREAD.to_string()));
    app.chat_widget.thread_id = Some("other".to_string());
    assert!(matches!(
        app.note_composer_submission_notification(&completed(&sent), &fences),
        NotifiedOutcome::Unsettled
    ));
    assert!(app
        .resolve_notified_composer_submissions_for_active_thread(&fences)
        .is_empty());
    app.chat_widget.thread_id = Some(THREAD.to_string());
    assert_eq!(
        app.resolve_notified_composer_submissions_for_active_thread(&fences),
        vec![sent.submission_id()]
    );
}

#[test]
fn a_submission_of_a_hidden_thread_is_refused() {
    let mut app = app();
    let sent = submission("hello");
    for thread_id in [None, Some("other".to_string())] {
        assert_eq!(
            app.dispatch_native_composer_submit(&sent, None, &thread_id),
            Err(SubmissionDispatchOutcome::NotApplied(
                ErrorCode::ComposerUnavailable
            ))
        );
    }
    assert!(app.pending_composer_submissions.is_empty());
}

#[test]
fn a_refused_submission_is_forgotten_and_a_lost_one_is_not() {
    let mut app = app();
    let fences = FenceTable::new();
    let refused = submission("refused");
    let lost = submission("lost");
    let _ = app.dispatch_native_composer_submit(&refused, None, &Some(THREAD.to_string()));
    let _ = app.dispatch_native_composer_submit(&lost, None, &Some(THREAD.to_string()));
    let (outcome, _) = app.finish_native_composer_submit(
        &refused,
        DispatchReply::Ended(SubmissionDispatchOutcome::NotApplied(
            ErrorCode::SubmissionUnavailable,
        )),
        &fences,
        false,
    );
    assert_eq!(
        outcome,
        SubmissionDispatchOutcome::NotApplied(ErrorCode::SubmissionUnavailable)
    );
    let (outcome, _) =
        app.finish_native_composer_submit(&lost, DispatchReply::TimedOut, &fences, false);
    assert_eq!(outcome, SubmissionDispatchOutcome::Unknown);
    assert!(!app
        .pending_composer_submissions
        .contains_key(refused.submission_id()));
    assert!(app
        .pending_composer_submissions
        .contains_key(lost.submission_id()));
}

#[test]
fn a_composer_free_submission_has_nothing_to_clear() {
    let mut app = app();
    let fences = FenceTable::new();
    let sent = NativeComposerSubmission::new_direct(3, 4, THREAD.to_string(), "hello");
    let _ = app.dispatch_native_composer_submit(&sent, None, &Some(THREAD.to_string()));
    let (outcome, report) = app.finish_native_composer_submit(
        &sent,
        DispatchReply::Accepted("turn".to_string()),
        &fences,
        false,
    );
    assert_eq!(outcome, SubmissionDispatchOutcome::Accepted);
    assert!(matches!(report, DispatchReport::Nothing));
}

#[test]
fn the_end_of_a_turn_abandons_what_did_not_come_into_history() {
    let mut app = app();
    let fences = FenceTable::new();
    let lost = submission("lost");
    let other_turn = submission("other");
    app.register_pending_composer_submission(lost.copied(), "turn".to_string());
    app.register_pending_composer_submission(other_turn.copied(), "later".to_string());
    let ended = ServerNotification::TurnCompleted {
        thread_id: THREAD.to_string(),
        turn_id: "turn".to_string(),
    };
    assert!(matches!(
        app.note_composer_submission_notification(&ended, &fences),
        NotifiedOutcome::Unsettled
    ));
    assert!(matches!(
        last_transition(&app),
        ComposerSubmissionTransition::Abandoned(gone)
            if gone.submission_id() == lost.submission_id()
    ));
    assert_eq!(app.pending_composer_submissions.len(), 1);
    assert!(matches!(
        app.resolve_notified_composer_submission(
            &other_turn.client_user_message_id(),
            &fences
        ),
        NotifiedOutcome::Unsettled
    ));
}

#[test]
fn a_rollback_settles_the_submissions_of_its_thread() {
    let mut app = app();
    let fences = FenceTable::new();
    let survivor = submission("stays");
    let removed = submission("goes");
    app.register_pending_composer_submission(survivor.copied(), "one".to_string());
    app.register_pending_composer_submission(removed.copied(), "two".to_string());
    let left = thread_with(&[survivor.client_user_message_id()]);
    let (surviving, _) = surviving_composer_submission_ids(&left);
    assert_eq!(
        app.thread_submissions(THREAD),
        vec![survivor.submission_id(), removed.submission_id()]
    );
    assert!(app.thread_submissions("other").is_empty());
    assert_eq!(
        app.roll_back_submission(survivor.submission_id(), &surviving, &fences),
        NotifiedOutcome::Committed
    );
    assert_eq!(
        app.roll_back_submission(removed.submission_id(), &surviving, &fences),
        NotifiedOutcome::Abandoned
    );
    assert_eq!(
        app.roll_back_submission(removed.submission_id(), &surviving, &fences),
        NotifiedOutcome::Unsettled
    );
    let step = app.handle_thread_rollback_response_with_origin(
        THREAD,
        1,
        &left,
        ThreadRollbackOrigin::SafetyBufferingRetry,
        true,
    );
    assert_eq!(step, RollbackStep::ApplyNonPending { num_turns: 1 });
    assert_eq!(app.active_thread_id, None);
    assert!(app.pending_composer_submissions.is_empty());
    assert!(matches!(
        last_transition(&app),
        ComposerSubmissionTransition::ThreadRolledBack { thread_id, surviving_submission_ids }
            if thread_id == THREAD && *surviving_submission_ids == [survivor.submission_id()]
    ));
    assert!(app.thread_submissions(THREAD).is_empty());
    let step = app.handle_thread_rollback_response(THREAD, 2, &left, false);
    assert_eq!(step, RollbackStep::BacktrackSucceeded { num_turns: 2 });
}

#[test]
fn survivors_are_committed_one_by_one_before_the_rollback_is_told() {
    let mut app = app();
    let mut fences = FenceTable::new();
    let fence = fences.raise();
    let sent = submission("stays");
    let other = submission("stays too");
    let local = commit(&sent, fence);
    let _ = app.dispatch_native_composer_submit(&sent, Some(local), &Some(THREAD.to_string()));
    let _ = app.dispatch_native_composer_submit(&other, None, &Some(THREAD.to_string()));
    let left = thread_with(&[sent.client_user_message_id(), other.client_user_message_id()]);
    let (surviving, _) = surviving_composer_submission_ids(&left);
    for id in app.thread_submissions(THREAD) {
        if let NotifiedOutcome::ClearDraft(id) = app.roll_back_submission(id, &surviving, &fences) {
            assert_eq!(id, sent.submission_id());
            assert!(matches!(
                app.finish_notified_clear(id, &fences, true),
                ClearReport::Cleared(_)
            ));
        }
    }
    let _ = app.handle_thread_rollback_response(THREAD, 1, &left, false);
    let ours = sent.submission_id();
    let theirs = other.submission_id();
    assert!(matches!(
        app.composer_submission_transitions.as_slice(),
        [
            ComposerSubmissionTransition::Pending(a),
            ComposerSubmissionTransition::Committed(b),
            ComposerSubmissionTransition::Pending(c),
            ComposerSubmissionTransition::Committed(d),
            ComposerSubmissionTransition::ThreadRolledBack { .. }
        ] if a.submission_id() == ours && b.submission_id() == ours
            && c.submission_id() == theirs && d.submission_id() == theirs
    ));
}

#[test]
fn a_rendered_message_is_listed_once() {
    let mut shown = widget(Some(THREAD));
    let mut fences = FenceTable::new();
    let fence = fences.raise();
    let sent = submission("hello");
    let local = commit(&sent, fence);
    assert!(shown.commit_native_composer_submit(&local, &fences, true).is_some());
    assert!(shown.commit_native_composer_submit(&local, &fences, true).is_some());
    assert_eq!(
        shown.locally_rendered_composer_submission_ids,
        vec![sent.client_user_message_id()]
    );
}

#[test]
fn a_submission_is_described_without_its_text() {
    let mut sent = submission("sécret");
    sent.submission_id = 0x0011_2233_4455_4677_8899_aabb_ccdd_eeff;
    let told = sent.description();
    assert_eq!(
        told,
        "NativeComposerSubmission { submission_id: 00112233-4455-4677-8899-aabbccddeeff, \
         thread_id: \"thread\", submitted_text_bytes: 7, lease_count: 1, direct: false }"
    );
    sent.thread_id = "a\"b\n".to_string();
    assert!(sent.description().contains("thread_id: \"a\\\"b\\n\", "));
    let direct = NativeComposerSubmission::new_direct(sent.submission_id, 1, THREAD.to_string(), "");
    assert_eq!(
        direct.description(),
        "NativeComposerSubmission { submission_id: 00112233-4455-4677-8899-aabbccddeeff, \
         thread_id: \"thread\", submitted_text_bytes: 0, lease_count: 0, direct: true }"
    );
}

#[test]
fn the_control_plane_follows_a_submission() {
    let mut state = ComposerControlState::new();
    let sent = submission("hello");
    state.note_submission_pending(&sent);
    state.note_submission_committed(&sent);
    state.note_submission_abandoned(&sent);
    state.note_thread_rolled_back(THREAD, &Vec::<Uuid>::new());
    assert!(state.leases.is_empty());
}

fn preview(text: &str) -> Option<PlainComposerSubmission> {
    Some(PlainComposerSubmission {
        submitted_text: text.to_string(),
        leases: vec![SubmittedComposerLease {
            id: 1,
            range: 0..text.len(),
        }],
    })
}

#[test]
fn a_plain_draft_is_prepared_for_submission() {
    let shown = widget(Some(THREAD));
    let fence = FenceId { index: 0 };
    let prepared =
        match shown.prepare_native_composer_submit(1, "hello", fence, preview("hello"), None, None)
        {
            Ok(prepared) => prepared,
            Err(_) => panic!("a plain draft can be submitted"),
        };
    assert!(matches!(
        prepared.turn.items.as_slice(),
        [UserInput::Text(text)] if text == "hello"
    ));
    assert_eq!(prepared.turn.model, "model");
    assert_eq!(prepared.turn.cwd, "/work");
    assert_eq!(prepared.turn.effort.as_deref(), Some("high"));
    assert_eq!(prepared.turn.active_permission_profile.as_deref(), Some("profile"));
    assert_eq!(prepared.turn.collaboration_mode.as_deref(), Some("pair"));
    assert_eq!(prepared.turn.personality, None);
    assert_eq!(
        prepared.turn.message().client_user_message_id,
        Some(prepared.submission.client_user_message_id())
    );
    let commit = prepared.commit.expect("a draft is committed locally");
    assert!(commit.render_in_history);
    assert_eq!(commit.fence, fence);
    assert_eq!(
        commit.submission.client_user_message_id(),
        prepared.submission.client_user_message_id()
    );
}

#[test]
fn a_draft_that_is_not_plain_or_not_open_is_refused() {
    let fence = FenceId { index: 0 };
    let refuse = |shown: &ChatWidget, draft: Option<PlainComposerSubmission>, skills, apps| {
        match shown.prepare_native_composer_submit(1, "hello", fence, draft, skills, apps) {
            Ok(_) => panic!("nothing may be prepared"),
            Err(code) => code,
        }
    };
    let shown = widget(Some(THREAD));
    assert_eq!(
        refuse(&widget(None), preview("hello"), None, None),
        ErrorCode::ComposerUnavailable
    );
    assert_eq!(
        refuse(&shown, None, None, None),
        ErrorCode::SubmissionUnavailable
    );
    assert_eq!(
        refuse(&shown, preview("$skill"), Some(true), None),
        ErrorCode::SubmissionUnavailable
    );
    assert_eq!(
        refuse(&shown, preview("@app"), Some(false), Some(true)),
        ErrorCode::SubmissionUnavailable
    );
    let mut busy = widget(Some(THREAD));
    busy.plan_streaming = true;
    assert_eq!(
        refuse(&busy, preview("hello"), None, None),
        ErrorCode::SubmissionUnavailable
    );
    let mut modelless = widget(Some(THREAD));
    modelless.effective_model = " \t".to_string();
    assert_eq!(
        refuse(&modelless, preview("hello"), None, None),
        ErrorCode::SubmissionUnavailable
    );
    assert!(shown.direct_send_acquisition_available());
    assert!(!busy.direct_send_acquisition_available());
    assert!(shown.plain_draft_send_acquisition_available(
        &Some("hello".to_string()),
        Some(false),
        None
    ));
    assert!(!shown.plain_draft_send_acquisition_available(&None, None, None));
}

#[test]
fn a_reserved_send_is_prepared_for_its_thread_and_text() {
    let shown = widget(Some(THREAD));
    let direct = || NativeComposerSubmission::new_direct(3, 4, THREAD.to_string(), "hello");
    assert!(shown
        .prepare_reserved_send(direct(), "hello")
        .is_ok_and(|prepared| prepared.commit.is_none()
            && matches!(prepared.turn.items.as_slice(), [UserInput::Text(text)] if text == "hello")));
    assert!(matches!(
        shown.prepare_reserved_send(direct(), "other"),
        Err(ErrorCode::SubmissionUnavailable)
    ));
    assert!(matches!(
        widget(Some("other")).prepare_reserved_send(direct(), "hello"),
        Err(ErrorCode::SubmissionUnavailable)
    ));
    assert!(matches!(
        shown.prepare_reserved_send(submission("hello"), "hello"),
        Err(ErrorCode::SubmissionUnavailable)
    ));
    assert!(matches!(
        widget(None).prepare_reserved_send(direct(), "hello"),
        Err(ErrorCode::ComposerUnavailable)
    ));
}

#[test]
fn a_steering_message_waits_for_the_running_turn() {
    let mut shown = widget(Some(THREAD));
    let mut fences = FenceTable::new();
    let sent = submission("hello");
    let mut local = commit(&sent, fences.raise());
    local.render_in_history = false;
    let effects = shown
        .commit_native_composer_submit(&local, &fences, true)
        .expect("the draft was cleared");
    assert_eq!(effects.len(), 5);
    assert!(matches!(
        effects[3],
        WidgetEffect::RefreshPendingInputPreview
    ));
    assert_eq!(shown.pending_steers.len(), 1);
    assert_eq!(shown.pending_steers[0].message, "hello");
    assert!(!shown.saw_plan_item_this_turn);
    assert!(!shown.needs_final_message_separator);
    assert!(shown
        .commit_native_composer_submit(&local, &fences, false)
        .is_none());
    assert_eq!(shown.pending_steers.len(), 1);
}

#[test]
fn white_space_is_blank() {
    assert!(is_blank(""));
    assert!(is_blank(" \t\r\n\u{85}\u{a0}\u{2003}\u{3000}"));
    assert!(!is_blank(" x "));
    assert!(!is_blank("\u{200b}"));
}
