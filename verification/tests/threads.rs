use composer_control::dispatch::{
    composer_correction_thread_id, correction_commit_request,
    dispatch_composer_correction_unbounded, submission_typed_error_outcome, submit_thread_op,
    try_resolve_app_server_request, CorrectionReply, NativeDispatch, OpCall, OpEnd, OpReply,
    OpStep, RequestFailure, ResolutionReply, ResolutionStep, SteerFailure, SubmitThreadOpStep,
    ThreadOp, TurnReply,
};
use composer_control::enqueue::{CollabReceiver, StatusStep};
use composer_control::fence::FenceTable;
use composer_control::interactive::{
    ApprovalRequest, ElicitationKind, InteractiveOutcome, InteractiveView, ServerRequest,
    ThreadInteractiveRequest,
};
use composer_control::ledger::Ledger;
use composer_control::receipt::{
    CorrectionDispatchOutcome, CorrectionOrigin, PreparedCorrection, SubmissionDispatchOutcome,
};
use composer_control::replay::{
    initial_replay_steps, ActiveEventStep, EventHandling, FailOverNotice, ReplayStep,
    SnapshotEvent, ThreadEventSnapshot,
};
use composer_control::routing::{
    correction_server_error_outcome, AgentEntry, App, ServerNotification, SessionSelection,
    StartedThread, ThreadBufferedEvent, ThreadSessionState, Turn, JSONRPC_INVALID_PARAMS,
    JSONRPC_INVALID_REQUEST,
};
use composer_control::submission::NativeComposerSubmission;
use composer_control::turn::{
    TurnConfig, TurnMessage, TurnPermissionsOverride, UserInput, UserTurn,
};
use composer_control::widget::ChatWidget;
use composer_control::wire::ErrorCode;

fn widget(thread_id: Option<&str>) -> ChatWidget {
    ChatWidget {
        thread_id: thread_id.map(str::to_string),
        composer_control_available: true,
        session_configured: true,
        plan_streaming: false,
        suppress_queue_autosend: false,
        only_user_shell_commands_running: false,
        composer_is_strict_plain_empty: true,
        agent_turn_running: false,
        cwd: "/work".to_string(),
        approval_policy: "never".to_string(),
        active_permission_profile: None,
        effective_model: "model".to_string(),
        effective_reasoning_effort: None,
        service_tier_update: None,
        collaboration_modes_enabled: false,
        collaboration_mask_active: false,
        effective_collaboration_mode: "default".to_string(),
        personality: None,
        personality_enabled: false,
        model_supports_personality: false,
        locally_rendered_composer_submission_ids: Vec::new(),
        user_turn_pending_start: false,
        pending_steers: Vec::new(),
        saw_plan_item_this_turn: false,
        needs_final_message_separator: false,
    }
}

fn app() -> App {
    App {
        chat_widget: widget(None),
        turn_config: TurnConfig {
            approvals_reviewer: "user".to_string(),
            effective_permission_profile: "read-only".to_string(),
            runtime_permission_profile_override: Some("read-only".to_string()),
            user_visible_workspace_roots: vec!["/work".to_string()],
        },
        active_thread_id: None,
        active_receiver_held: false,
        primary_thread_id: None,
        primary_session_configured: None,
        pending_primary_events: Vec::new(),
        pending_shutdown_exit_thread_id: None,
        rollback_pending: false,
        active_side_parent_thread_id: None,
        pending_app_server_requests: Vec::new(),
        thread_event_channels: Vec::new(),
        thread_event_channel_capacity: 2,
        thread_event_listener_tasks: Vec::new(),
        side_threads: Vec::new(),
        agent_navigation: Vec::new(),
        pending_composer_submissions: Ledger::new(),
        composer_submission_transitions: Vec::new(),
    }
}

fn turn(composer_submission: Option<NativeComposerSubmission>) -> UserTurn {
    UserTurn {
        items: vec![
            UserInput::Text("hello".to_string()),
            UserInput::Encoded("image".to_string()),
        ],
        cwd: "/work".to_string(),
        approval_policy: "never".to_string(),
        approvals_reviewer: None,
        active_permission_profile: None,
        model: "model".to_string(),
        effort: Some("low".to_string()),
        summary: None,
        service_tier: None,
        final_output_json_schema: None,
        collaboration_mode: None,
        personality: None,
        composer_submission,
    }
}

fn native_turn() -> UserTurn {
    turn(Some(NativeComposerSubmission::new_direct(
        5,
        6,
        "thread".to_string(),
        "hello",
    )))
}

/// The message is that of the submission of `native_turn`.
fn is_native_message(message: &TurnMessage) -> bool {
    message.client_user_message_id.as_deref()
        == Some("koenig-composer-00000000-0000-0000-0000-000000000005")
        && message.composer_receipt.as_ref().is_some_and(|(key, value)| {
            key == "koenig_transcription_receipt_00000000000000000000000000000005"
                && value.contains("koenig-composer-00000000-0000-0000-0000-000000000005")
        })
        && matches!(
            message.items.as_slice(),
            [UserInput::Text(text), UserInput::Encoded(image)]
                if text == "hello" && image == "image"
        )
}

fn showing(thread_id: &str) -> App {
    let mut app = app();
    app.ensure_thread_channel(thread_id);
    app.activate_thread_channel(thread_id);
    app.chat_widget.thread_id = Some(thread_id.to_string());
    app
}

fn session(thread_id: &str) -> ThreadSessionState {
    ThreadSessionState {
        thread_id: thread_id.to_string(),
        thread_name: None,
        model_provider_id: "provider".to_string(),
        model: "model".to_string(),
        cwd: "/work".to_string(),
        rollout_path: Some("/rollout".to_string()),
        has_message_history: true,
        ultra_effort: false,
    }
}

#[test]
fn correction_server_error_outcome_only_treats_request_rejection_as_not_applied() {
    assert_eq!(
        correction_server_error_outcome(JSONRPC_INVALID_REQUEST),
        CorrectionDispatchOutcome::NotApplied
    );
    assert_eq!(
        correction_server_error_outcome(JSONRPC_INVALID_PARAMS),
        CorrectionDispatchOutcome::NotApplied
    );
    for code in [-32601, -32603, -32000] {
        assert_eq!(
            correction_server_error_outcome(code),
            CorrectionDispatchOutcome::Unknown
        );
    }
}

#[test]
fn turn_permissions_use_active_profile_when_available() {
    assert_eq!(
        App::turn_permissions_override_from_config(
            &Some(":workspace".to_string()),
            &"workspace-write".to_string(),
            &None,
        ),
        TurnPermissionsOverride::ActiveProfile(":workspace".to_string())
    );
}

#[test]
fn turn_permissions_preserve_server_snapshot_without_local_override() {
    assert_eq!(
        App::turn_permissions_override_from_config(&None, &"read-only".to_string(), &None),
        TurnPermissionsOverride::Preserve
    );
    assert_eq!(
        App::turn_permissions_override_from_config(
            &None,
            &"read-only".to_string(),
            &Some("workspace-write".to_string()),
        ),
        TurnPermissionsOverride::Preserve
    );
}

#[test]
fn turn_permissions_send_legacy_sandbox_for_local_override() {
    assert_eq!(
        App::turn_permissions_override_from_config(
            &None,
            &"workspace-write".to_string(),
            &Some("workspace-write".to_string()),
        ),
        TurnPermissionsOverride::LegacySandbox("workspace-write".to_string())
    );
}

#[test]
fn only_an_answered_refusal_is_known_not_to_be_applied() {
    assert_eq!(
        submission_typed_error_outcome(&RequestFailure::Server),
        SubmissionDispatchOutcome::NotApplied(ErrorCode::SubmissionUnavailable)
    );
    for failure in [RequestFailure::Transport, RequestFailure::Deserialize] {
        assert_eq!(
            submission_typed_error_outcome(&failure),
            SubmissionDispatchOutcome::Unknown
        );
    }
}

#[test]
fn a_correction_is_asked_for_twice_at_most() {
    assert_eq!(
        dispatch_composer_correction_unbounded(false, CorrectionReply::Lost),
        None
    );
    assert_eq!(
        dispatch_composer_correction_unbounded(true, CorrectionReply::Lost),
        Some(CorrectionDispatchOutcome::Unknown)
    );
    assert_eq!(
        dispatch_composer_correction_unbounded(false, CorrectionReply::Accepted),
        Some(CorrectionDispatchOutcome::Accepted)
    );
    assert_eq!(
        dispatch_composer_correction_unbounded(false, CorrectionReply::ServerError(-32602)),
        Some(CorrectionDispatchOutcome::NotApplied)
    );
}

#[test]
fn a_correction_request_carries_the_correction() {
    let pending = PreparedCorrection {
        lease_id: 1,
        origin: CorrectionOrigin::Composer,
        thread_id: "thread".to_string(),
        correction_id: 0xff,
        expected_client_user_message_id: "client".to_string(),
        payload: "payload".to_string(),
    };
    let first = correction_commit_request(&pending, "thread");
    let second = correction_commit_request(&pending, "thread");
    assert!(first.request_id.starts_with("composer-correction-"));
    assert_eq!(first.request_id.len(), "composer-correction-".len() + 36);
    assert_ne!(first.request_id, second.request_id);
    assert_eq!(first.correction_id, "00000000-0000-0000-0000-0000000000ff");
    assert_eq!(first.expected_client_user_message_id, "client");
    assert_eq!(first.payload, "payload");
    assert_eq!(first.thread_id, "thread");
    assert_eq!(
        composer_correction_thread_id(None),
        Err(CorrectionDispatchOutcome::NotApplied)
    );
    assert_eq!(
        composer_correction_thread_id(Some("thread".to_string())),
        Ok("thread".to_string())
    );
}

#[test]
fn a_native_submission_is_steered_twice_and_started_once_at_most() {
    let mut app = showing("thread");
    app.set_active_turn_id("thread", Some("first".to_string()));
    let sent = native_turn();
    let op = ThreadOp::UserTurn { turn: native_turn() };
    let dispatch = app.dispatch_native_composer_submit_unbounded("thread", &op);
    assert!(matches!(
        &dispatch,
        NativeDispatch::Steer { turn_id, retried: false, message }
            if turn_id == "first" && is_native_message(message)
    ));
    let dispatch = app.advance_native_dispatch(
        "thread",
        &sent,
        dispatch,
        TurnReply::SteerFailed(SteerFailure::TurnMismatch("second".to_string())),
    );
    assert!(matches!(
        &dispatch,
        NativeDispatch::Steer { turn_id, retried: true, message }
            if turn_id == "second" && is_native_message(message)
    ));
    assert_eq!(
        app.active_turn_id_for_thread("thread"),
        Some("second".to_string())
    );
    let dispatch = app.advance_native_dispatch(
        "thread",
        &sent,
        dispatch,
        TurnReply::SteerFailed(SteerFailure::TurnMissing),
    );
    let started = match &dispatch {
        NativeDispatch::Start { turn } => turn,
        _ => panic!("a turn is started"),
    };
    assert!(is_native_message(&started.message));
    assert_eq!(started.approvals_reviewer, "user");
    assert_eq!(
        started.permissions_override,
        TurnPermissionsOverride::LegacySandbox("read-only".to_string())
    );
    assert_eq!(started.workspace_roots, vec!["/work".to_string()]);
    assert_eq!(started.effort.as_deref(), Some("low"));
    assert_eq!(app.active_turn_id_for_thread("thread"), None);
    let dispatch = app.advance_native_dispatch(
        "thread",
        &sent,
        dispatch,
        TurnReply::Taken {
            turn_id: "third".to_string(),
        },
    );
    assert!(matches!(
        dispatch,
        NativeDispatch::Taken { turn_id, record_safety_buffering: true } if turn_id == "third"
    ));
}

#[test]
fn what_carries_no_submission_is_not_dispatched_as_one() {
    let app = showing("thread");
    for op in [ThreadOp::Compact, ThreadOp::UserTurn { turn: turn(None) }] {
        assert!(matches!(
            app.dispatch_native_composer_submit_unbounded("thread", &op),
            NativeDispatch::Ended(SubmissionDispatchOutcome::NotApplied(
                ErrorCode::SubmissionUnavailable
            ))
        ));
    }
}

#[test]
fn a_second_mismatch_ends_the_submission() {
    let mut app = showing("thread");
    app.set_active_turn_id("thread", Some("first".to_string()));
    let sent = native_turn();
    for (turn_id, retried, actual) in [("first", true, "third"), ("first", false, "first")] {
        let dispatch = app.advance_native_dispatch(
            "thread",
            &sent,
            NativeDispatch::Steer {
                turn_id: turn_id.to_string(),
                retried,
                message: sent.message(),
            },
            TurnReply::SteerFailed(SteerFailure::TurnMismatch(actual.to_string())),
        );
        assert!(matches!(
            dispatch,
            NativeDispatch::Ended(SubmissionDispatchOutcome::NotApplied(
                ErrorCode::SubmissionUnavailable
            ))
        ));
        assert_eq!(
            app.active_turn_id_for_thread("thread"),
            Some(actual.to_string())
        );
    }
}

#[test]
fn a_submission_that_cannot_be_placed_ends() {
    let mut app = showing("thread");
    let sent = native_turn();
    let config = TurnConfig {
        approvals_reviewer: "user".to_string(),
        effective_permission_profile: "read-only".to_string(),
        runtime_permission_profile_override: None,
        user_visible_workspace_roots: Vec::new(),
    };
    let steer = || NativeDispatch::Steer {
        turn_id: "turn".to_string(),
        retried: false,
        message: sent.message(),
    };
    let start = || NativeDispatch::Start {
        turn: sent.new_turn(&config),
    };
    assert!(matches!(
        app.advance_native_dispatch(
            "thread",
            &sent,
            steer(),
            TurnReply::SteerFailed(SteerFailure::NotSteerable("review".to_string())),
        ),
        NativeDispatch::Ended(SubmissionDispatchOutcome::NotApplied(
            ErrorCode::SubmissionUnavailable
        ))
    ));
    assert!(matches!(
        app.advance_native_dispatch(
            "thread",
            &sent,
            steer(),
            TurnReply::SteerFailed(SteerFailure::Other(RequestFailure::Transport)),
        ),
        NativeDispatch::Ended(SubmissionDispatchOutcome::Unknown)
    ));
    assert!(matches!(
        app.advance_native_dispatch(
            "thread",
            &sent,
            start(),
            TurnReply::StartFailed(Some(RequestFailure::Server)),
        ),
        NativeDispatch::Ended(SubmissionDispatchOutcome::NotApplied(
            ErrorCode::SubmissionUnavailable
        ))
    ));
    assert!(matches!(
        app.advance_native_dispatch("thread", &sent, start(), TurnReply::StartFailed(None)),
        NativeDispatch::Ended(SubmissionDispatchOutcome::Unknown)
    ));
    assert!(matches!(
        app.dispatch_native_composer_submit_unbounded(
            "thread",
            &ThreadOp::UserTurn { turn: native_turn() }
        ),
        NativeDispatch::Start { turn }
            if turn.permissions_override
                == TurnPermissionsOverride::LegacySandbox("read-only".to_string())
    ));
}

fn only_call(step: OpStep) -> OpCall {
    match step {
        OpStep::Call(call) => call,
        OpStep::End(_) => panic!("the operation makes a request"),
    }
}

#[test]
fn an_interrupt_is_retried_once_in_the_running_turn() {
    let mut app = showing("thread");
    assert!(matches!(
        app.try_submit_active_thread_op_via_app_server("thread", &ThreadOp::Interrupt),
        OpStep::Call(OpCall::StartupInterrupt)
    ));
    app.set_active_turn_id("thread", Some("first".to_string()));
    let call =
        only_call(app.try_submit_active_thread_op_via_app_server("thread", &ThreadOp::Interrupt));
    let call = only_call(app.advance_thread_op(
        "thread",
        &ThreadOp::Interrupt,
        call,
        OpReply::InterruptFailed {
            actual_turn_id: Some("second".to_string()),
        },
    ));
    assert!(matches!(
        &call,
        OpCall::TurnInterrupt { turn_id, retried: true } if turn_id == "second"
    ));
    assert_eq!(
        app.active_turn_id_for_thread("thread"),
        Some("first".to_string())
    );
    assert!(matches!(
        app.advance_thread_op(
            "thread",
            &ThreadOp::Interrupt,
            call,
            OpReply::InterruptFailed {
                actual_turn_id: Some("third".to_string()),
            },
        ),
        OpStep::End(OpEnd::Failed)
    ));
    for actual_turn_id in [None, Some("first".to_string())] {
        assert!(matches!(
            app.advance_thread_op(
                "thread",
                &ThreadOp::Interrupt,
                OpCall::TurnInterrupt {
                    turn_id: "first".to_string(),
                    retried: false,
                },
                OpReply::InterruptFailed { actual_turn_id },
            ),
            OpStep::End(OpEnd::Failed)
        ));
    }
}

#[test]
fn a_user_turn_registers_its_submission() {
    let mut app = showing("thread");
    let op = ThreadOp::UserTurn { turn: native_turn() };
    let call = only_call(app.try_submit_active_thread_op_via_app_server("thread", &op));
    assert!(matches!(
        &call,
        OpCall::TurnStart { turn } if is_native_message(&turn.message) && turn.model == "model"
    ));
    assert!(matches!(
        app.advance_thread_op(
            "thread",
            &op,
            call,
            OpReply::TurnTaken {
                turn_id: "turn".to_string(),
            },
        ),
        OpStep::End(OpEnd::TurnStarted { turn_id, record_safety_buffering: true })
            if turn_id == "turn"
    ));
    let pending = app.pending_composer_submissions.get(5).expect("registered");
    assert_eq!(pending.turn_id, Some("turn".to_string()));
    assert!(!pending.item_committed);
    assert_eq!(app.composer_submission_transitions.len(), 1);
}

#[test]
fn a_turn_that_takes_no_messages_says_why() {
    let mut app = showing("thread");
    app.set_active_turn_id("thread", Some("review".to_string()));
    let op = ThreadOp::UserTurn { turn: turn(None) };
    let call = only_call(app.try_submit_active_thread_op_via_app_server("thread", &op));
    assert!(matches!(
        &call,
        OpCall::TurnSteer { message, .. }
            if message.client_user_message_id.is_none() && message.composer_receipt.is_none()
                && message.items.len() == 2
    ));
    assert!(matches!(
        app.advance_thread_op(
            "thread",
            &op,
            call,
            OpReply::SteerFailed(SteerFailure::NotSteerable("reviewing".to_string())),
        ),
        OpStep::End(OpEnd::SteerRejected(message)) if message == "reviewing"
    ));
}

#[test]
fn a_review_runs_in_its_own_thread() {
    let mut app = showing("thread");
    let op = ThreadOp::Review {
        target: "branch".to_string(),
    };
    let call = only_call(app.try_submit_active_thread_op_via_app_server("thread", &op));
    assert!(matches!(&call, OpCall::ReviewStart { target } if target == "branch"));
    let step = app.advance_thread_op(
        "thread",
        &op,
        call,
        OpReply::ReviewStarted {
            review_thread_id: Some("review".to_string()),
            turn_id: "turn".to_string(),
        },
    );
    assert!(matches!(step, OpStep::End(OpEnd::Handled)));
    assert_eq!(
        app.active_turn_id_for_thread("review"),
        Some("turn".to_string())
    );
    assert!(matches!(
        app.advance_thread_op(
            "thread",
            &op,
            OpCall::ReviewStart {
                target: "branch".to_string(),
            },
            OpReply::ReviewStarted {
                review_thread_id: None,
                turn_id: "turn".to_string(),
            },
        ),
        OpStep::End(OpEnd::Failed)
    ));
}

#[test]
fn operations_end_as_they_are_answered() {
    let mut app = showing("thread");
    let rollback = ThreadOp::ThreadRollback { num_turns: 2 };
    let call = only_call(app.try_submit_active_thread_op_via_app_server("thread", &rollback));
    assert!(matches!(
        app.advance_thread_op("thread", &rollback, call, OpReply::Done),
        OpStep::End(OpEnd::RolledBack { num_turns: 2 })
    ));
    assert!(matches!(
        app.advance_thread_op(
            "thread",
            &rollback,
            OpCall::ThreadRollback { num_turns: 2 },
            OpReply::Failed
        ),
        OpStep::End(OpEnd::RollbackFailed)
    ));
    let skills = ThreadOp::ListSkills {
        cwds: vec!["/work".to_string()],
        force_reload: true,
    };
    let call = only_call(app.try_submit_active_thread_op_via_app_server("thread", &skills));
    assert!(matches!(
        &call,
        OpCall::SkillsList { cwds, force_reload: true } if cwds.len() == 1 && cwds[0] == "/work"
    ));
    assert!(matches!(
        app.advance_thread_op(
            "thread",
            &skills,
            call,
            OpReply::SkillsListed {
                error: Some("down".to_string()),
            }
        ),
        OpStep::End(OpEnd::SkillsListed { error: Some(shown) })
            if shown == "failed to refresh skills: down"
    ));
    let name = ThreadOp::SetThreadName {
        name: "new".to_string(),
    };
    let call = only_call(app.try_submit_active_thread_op_via_app_server("thread", &name));
    assert!(matches!(&call, OpCall::ThreadSetName { name } if name == "new"));
    assert!(matches!(
        app.advance_thread_op("thread", &name, call, OpReply::Done),
        OpStep::End(OpEnd::Handled)
    ));
    let command = ThreadOp::RunUserShellCommand {
        command: "ls".to_string(),
    };
    assert!(matches!(
        app.try_submit_active_thread_op_via_app_server("thread", &command),
        OpStep::Call(OpCall::ShellCommand { command }) if command == "ls"
    ));
    assert!(matches!(
        app.advance_thread_op(
            "thread",
            &ThreadOp::Compact,
            OpCall::ThreadCompactStart,
            OpReply::Failed
        ),
        OpStep::End(OpEnd::Failed)
    ));
    assert!(matches!(
        app.try_submit_active_thread_op_via_app_server("thread", &ThreadOp::Other),
        OpStep::End(OpEnd::NotHandled)
    ));
}

#[test]
fn the_user_is_told_what_cannot_be_done() {
    assert_eq!(
        app().submit_active_thread_op(),
        Err("No active thread is available.".to_string())
    );
    assert_eq!(
        showing("thread").submit_active_thread_op(),
        Ok("thread".to_string())
    );
    assert!(matches!(
        submit_thread_op("thread", false, true),
        SubmitThreadOpStep::Unavailable(message)
            if message == "Not available in TUI yet for thread thread."
    ));
    assert!(matches!(
        submit_thread_op("thread", true, true),
        SubmitThreadOpStep::Done { note: true }
    ));
    assert!(matches!(
        try_resolve_app_server_request(
            "thread",
            ResolutionReply::Failed("gone".to_string()),
            true
        ),
        ResolutionStep::Submit { error: Some(message) }
            if message == "Failed to resolve app-server request for thread thread: gone"
    ));
    assert!(matches!(
        try_resolve_app_server_request("thread", ResolutionReply::Resolved, false),
        ResolutionStep::Handled { note: false }
    ));
    assert_eq!(
        app().handle_skills_list_result(&Some("down".to_string()), "failed to refresh skills"),
        Some("failed to refresh skills: down".to_string())
    );
    assert_eq!(app().handle_skills_list_result(&None, "unused"), None);
}

#[test]
fn threads_are_labelled() {
    let mut app = app();
    app.primary_thread_id = Some("primary".to_string());
    assert_eq!(app.thread_label("primary"), "Main [default]");
    assert_eq!(app.thread_label("0123456789"), "Agent (01234567)");
    app.agent_navigation.push(AgentEntry {
        thread_id: "0123456789".to_string(),
        item_name: "Agent".to_string(),
    });
    app.agent_navigation.push(AgentEntry {
        thread_id: "named".to_string(),
        item_name: "Scout [explorer]".to_string(),
    });
    assert_eq!(app.thread_label("0123456789"), "Agent (01234567)");
    assert_eq!(app.thread_label("named"), "Scout [explorer]");
}

#[test]
fn a_receiver_moves_between_its_channel_and_the_shown_thread() {
    let mut app = app();
    assert_eq!(app.ensure_thread_channel("one"), 0);
    assert_eq!(app.ensure_thread_channel("two"), 1);
    assert_eq!(app.ensure_thread_channel("one"), 0);
    app.activate_thread_channel("one");
    assert!(app.active_receiver_held);
    assert!(app.thread_event_channels[0].active);
    app.activate_thread_channel("two");
    assert_eq!(app.active_thread_id, Some("one".to_string()));
    app.store_active_thread_receiver();
    assert!(!app.active_receiver_held);
    assert!(!app.thread_event_channels[0].active);
    assert!(app.activate_thread_for_replay("one"));
    assert!(!app.activate_thread_for_replay("one"));
    assert!(!app.activate_thread_for_replay("unknown"));
    app.clear_active_thread();
    assert_eq!(app.active_thread_id, None);
}

#[test]
fn a_resumed_thread_that_is_shown_is_left_alone() {
    let app = showing("thread");
    assert_eq!(
        app.ignore_same_thread_resume("thread", "my thread"),
        Some("Already viewing my thread.".to_string())
    );
    assert_eq!(app.ignore_same_thread_resume("other", "my thread"), None);
    assert_eq!(
        app.sync_active_agent_label(),
        (Some("thread".to_string()), None)
    );
}

#[test]
fn listeners_are_stopped_once() {
    let mut app = app();
    app.thread_event_listener_tasks = vec!["one".to_string(), "two".to_string()];
    app.chat_widget.thread_id = Some("one".to_string());
    app.rollback_pending = true;
    assert_eq!(
        app.shutdown_current_thread(),
        Some(("one".to_string(), true))
    );
    assert!(!app.rollback_pending);
    assert!(!app.abort_thread_event_listener("one"));
    assert_eq!(
        app.abort_all_thread_event_listeners(),
        vec!["two".to_string()]
    );
    assert!(app.thread_event_listener_tasks.is_empty());
    app.chat_widget.thread_id = None;
    assert_eq!(app.shutdown_current_thread(), None);
}

#[test]
fn startup_waits_and_prompts_as_it_was_selected() {
    assert!(App::should_wait_for_initial_session(
        &SessionSelection::StartFresh
    ));
    assert!(App::should_wait_for_initial_session(&SessionSelection::Exit));
    assert!(!App::should_wait_for_initial_session(
        &SessionSelection::Resume
    ));
    assert!(App::should_prompt_for_paused_goal_after_startup_resume(
        &SessionSelection::Resume,
        &None,
        &Vec::new()
    ));
    assert!(!App::should_prompt_for_paused_goal_after_startup_resume(
        &SessionSelection::Fork,
        &None,
        &Vec::new()
    ));
    assert!(!App::should_prompt_for_paused_goal_after_startup_resume(
        &SessionSelection::Resume,
        &Some("go".to_string()),
        &Vec::new()
    ));
    assert!(App::should_handle_active_thread_events(false, true));
    assert!(!App::should_handle_active_thread_events(true, true));
    assert!(App::should_stop_waiting_for_initial_session(
        true,
        &Some("thread".to_string())
    ));
    assert!(!App::should_stop_waiting_for_initial_session(true, &None));
}

#[test]
fn a_stored_session_is_refreshed_where_it_is_only_inferred() {
    let mut app = app();
    let stored = Some(("model".to_string(), true));
    assert!(!app.should_refresh_snapshot_session("thread", false, &stored));
    assert!(app.should_refresh_snapshot_session(
        "thread",
        false,
        &Some((" \u{a0}".to_string(), true))
    ));
    assert!(app.should_refresh_snapshot_session(
        "thread",
        false,
        &Some(("model".to_string(), false))
    ));
    assert!(app.should_refresh_snapshot_session("thread", false, &None));
    assert!(!app.should_refresh_snapshot_session("thread", true, &None));
    app.side_threads.push("thread".to_string());
    assert!(!app.should_refresh_snapshot_session("thread", false, &None));
}

#[test]
fn a_dead_agent_thread_fails_over_to_the_primary_one() {
    let closed = ThreadBufferedEvent::Notification(ServerNotification::ThreadClosed);
    let mut app = showing("agent");
    app.primary_thread_id = Some("primary".to_string());
    app.side_threads.push("agent".to_string());
    assert!(matches!(
        app.handle_active_thread_event(&closed),
        ActiveEventStep::FailOver { closed, primary, is_side: true }
            if closed == "agent" && primary == "primary"
    ));
    assert!(matches!(
        app.finish_fail_over("agent", "primary"),
        FailOverNotice::Error(message) if message
            == "Agent thread agent closed. Failed to switch back to main thread primary."
    ));
    assert_eq!(app.active_thread_id, None);
    app.active_thread_id = Some("primary".to_string());
    assert!(matches!(
        app.finish_fail_over("agent", "primary"),
        FailOverNotice::Info(message)
            if message == "Agent thread agent closed. Switched back to main thread."
    ));
}

#[test]
fn a_shutdown_that_was_asked_for_does_not_fail_over() {
    let closed = ThreadBufferedEvent::Notification(ServerNotification::ThreadClosed);
    let mut app = showing("agent");
    app.primary_thread_id = Some("primary".to_string());
    app.pending_shutdown_exit_thread_id = Some("agent".to_string());
    assert!(matches!(
        app.handle_active_thread_event(&ThreadBufferedEvent::FeedbackSubmission),
        ActiveEventStep::Handle {
            handling: EventHandling::Feedback,
            refresh_status: false,
        }
    ));
    assert!(app.pending_shutdown_exit_thread_id.is_some());
    assert!(matches!(
        app.handle_active_thread_event(&closed),
        ActiveEventStep::Handle {
            handling: EventHandling::Notification,
            refresh_status: false,
        }
    ));
    assert_eq!(app.pending_shutdown_exit_thread_id, None);
}

#[test]
fn an_answered_request_is_dropped_but_replayed() {
    let mut app = app();
    let request = ThreadBufferedEvent::Request {
        request_id: "7".to_string(),
    };
    assert_eq!(
        app.handle_thread_event_now(&request),
        (EventHandling::StaleRequest, false)
    );
    app.pending_app_server_requests.push("7".to_string());
    assert_eq!(
        app.handle_thread_event_now(&request),
        (EventHandling::Request, false)
    );
    assert_eq!(
        App::handle_thread_event_replay(&request),
        EventHandling::Request
    );
    let started = ThreadBufferedEvent::Notification(ServerNotification::TurnStarted);
    assert_eq!(
        app.handle_thread_event_now(&started),
        (EventHandling::Notification, true)
    );
}

#[test]
fn a_disconnected_receiver_leaves_no_thread_shown() {
    let mut app = showing("thread");
    app.drain_active_thread_events(false);
    assert!(app.active_receiver_held);
    app.drain_active_thread_events(true);
    assert_eq!(app.active_thread_id, None);
}

#[test]
fn a_stored_thread_is_replayed_behind_a_closed_queue() {
    let app = app();
    let snapshot = ThreadEventSnapshot {
        session: Some(session("thread")),
        turns: vec![Turn {
            id: "turn".to_string(),
            items: Vec::new(),
        }],
        events: vec![
            SnapshotEvent {
                handle: 1,
                survives_session_refresh: false,
                is_notice: true,
            },
            SnapshotEvent {
                handle: 2,
                survives_session_refresh: true,
                is_notice: false,
            },
        ],
        has_pending_interactive_request: true,
    };
    assert_eq!(
        app.replay_thread_snapshot(&snapshot, true),
        vec![
            ReplayStep::RefreshMcpStartupExpectedServers,
            ReplayStep::BeginBuffer,
            ReplayStep::SetPlanModeReasoningEffort,
            ReplayStep::HandleSessionQuietly,
            ReplayStep::SuppressQueueAutosend(true),
            ReplayStep::RestoreInputState,
            ReplayStep::ResolveNotifiedSubmissions,
            ReplayStep::ReplayTurns,
            ReplayStep::ReplayEvent(2),
            ReplayStep::EndBuffer,
            ReplayStep::SuppressQueueAutosend(false),
            ReplayStep::SuppressInitialMessage(false),
            ReplayStep::SubmitInitialMessage,
            ReplayStep::SendNextQueuedInput,
            ReplayStep::RefreshStatusLine,
        ]
    );
    assert_eq!(
        initial_replay_steps(false, 1),
        vec![
            ReplayStep::SuppressInitialMessage(true),
            ReplayStep::HandleSession,
            ReplayStep::ReplayTurns,
            ReplayStep::ReplayEvent(0),
            ReplayStep::SuppressInitialMessage(false),
            ReplayStep::SubmitInitialMessage,
        ]
    );
}

#[test]
fn a_refreshed_session_replaces_what_was_stored() {
    let mut app = app();
    app.ensure_thread_channel("thread");
    let mut snapshot = ThreadEventSnapshot {
        session: None,
        turns: Vec::new(),
        events: vec![
            SnapshotEvent {
                handle: 1,
                survives_session_refresh: false,
                is_notice: false,
            },
            SnapshotEvent {
                handle: 2,
                survives_session_refresh: true,
                is_notice: false,
            },
        ],
        has_pending_interactive_request: false,
    };
    app.apply_refreshed_snapshot_thread("thread", session("thread"), Vec::new(), &mut snapshot);
    assert_eq!(snapshot.events.len(), 1);
    assert_eq!(snapshot.events[0].handle, 2);
    assert!(snapshot.session.is_some());
    assert_eq!(app.thread_cwd("thread"), Some("/work".to_string()));
}

#[test]
fn what_comes_early_for_the_primary_thread_waits() {
    let mut app = app();
    assert!(app
        .enqueue_primary_thread_notification(ServerNotification::TurnStarted)
        .is_none());
    assert!(app
        .enqueue_primary_thread_request("1".to_string())
        .is_none());
    let waited = app.enqueue_primary_thread_session(session("primary"));
    assert_eq!(waited.len(), 2);
    assert!(matches!(
        &waited[1],
        ThreadBufferedEvent::Request { request_id } if request_id == "1"
    ));
    assert_eq!(app.primary_thread_id, Some("primary".to_string()));
    assert_eq!(app.active_thread_id, Some("primary".to_string()));
    assert!(app.active_receiver_held);
    assert!(matches!(
        app.enqueue_primary_thread_request("2".to_string()),
        Some((thread_id, ThreadBufferedEvent::Request { request_id }))
            if thread_id == "primary" && request_id == "2"
    ));
}

#[test]
fn settings_of_an_unknown_thread_are_dropped() {
    let mut app = app();
    let fences = FenceTable::new();
    app.primary_thread_id = Some("primary".to_string());
    assert!(app
        .enqueue_thread_notification(
            "unknown",
            &ServerNotification::ThreadSettingsUpdated,
            None,
            &fences
        )
        .is_none());
    assert!(app.thread_event_channels.is_empty());
    assert!(app
        .enqueue_thread_notification("unknown", &ServerNotification::Other, None, &fences)
        .is_some());
    assert_eq!(app.thread_event_channels.len(), 1);
    assert!(app
        .enqueue_thread_notification(
            "unknown",
            &ServerNotification::ThreadSettingsUpdated,
            None,
            &fences
        )
        .is_some());
}

#[test]
fn a_started_thread_takes_after_the_primary_session() {
    let mut app = app();
    let fences = FenceTable::new();
    let notification = ServerNotification::ThreadStarted {
        thread: StartedThread {
            name: Some("child".to_string()),
            model_provider: "other".to_string(),
            cwd: "/child".to_string(),
            rollout_path: Some("/child/rollout".to_string()),
        },
    };
    assert!(app
        .infer_session_for_thread_notification("child", &notification, &None)
        .is_none());
    app.primary_session_configured = Some(session("primary"));
    let inferred = app
        .infer_session_for_thread_notification("child", &notification, &None)
        .expect("a started thread has a session");
    assert_eq!(inferred.thread_id, "child");
    assert_eq!(inferred.model, "");
    assert_eq!(inferred.cwd, "/child");
    assert!(!inferred.has_message_history);
    let recorded = app
        .infer_session_for_thread_notification("child", &notification, &Some("big".to_string()))
        .expect("a started thread has a session");
    assert_eq!(recorded.model, "big");
    assert!(app
        .enqueue_thread_notification("child", &notification, Some(inferred), &fences)
        .is_some());
    assert_eq!(app.thread_cwd("child"), Some("/child".to_string()));
}

#[test]
fn what_waits_in_a_thread_comes_before_what_a_notification_says() {
    let mut app = showing("thread");
    let step = app.finish_enqueued_notification("thread", true);
    assert!(step.send);
    assert!(matches!(step.status, StatusStep::Apply));
    app.thread_event_channels[0].side_parent_pending_status = Some("waits".to_string());
    let step = app.finish_enqueued_notification("thread", true);
    assert!(matches!(step.status, StatusStep::Tell(status) if status == "waits"));
    assert!(matches!(
        app.refresh_side_parent_status_from_store("thread"),
        StatusStep::Tell(_)
    ));
    assert!(matches!(
        app.refresh_side_parent_status_from_store("unknown"),
        StatusStep::Keep
    ));
    app.thread_event_channels[0].side_parent_pending_status = None;
    assert!(matches!(
        app.refresh_side_parent_status_from_store("thread"),
        StatusStep::ClearAction
    ));
}

#[test]
fn a_request_of_a_hidden_thread_is_put_to_the_user() {
    let mut app = showing("thread");
    app.ensure_thread_channel("hidden");
    let (step, surface) = app.enqueue_thread_request("hidden", true, Some("asks".to_string()));
    assert!(!step.send);
    assert!(surface);
    assert!(matches!(step.status, StatusStep::Tell(status) if status == "asks"));
    let (step, surface) = app.enqueue_thread_request("thread", true, None);
    assert!(step.send);
    assert!(!surface);
    assert!(matches!(step.status, StatusStep::Keep));
    app.active_side_parent_thread_id = Some("thread".to_string());
    let (_, surface) = app.enqueue_thread_request("hidden", true, None);
    assert!(!surface);
}

#[test]
fn a_full_buffer_drops_its_oldest_event() {
    let mut app = app();
    app.ensure_thread_channel("thread");
    app.thread_event_channels[0]
        .buffer
        .push(ThreadBufferedEvent::Request {
            request_id: "old".to_string(),
        });
    assert_eq!(
        app.enqueue_thread_history_entry_response("thread", 1, 0),
        (false, None)
    );
    assert_eq!(
        app.enqueue_thread_history_entry_response("thread", 1, 1),
        (false, Some("old".to_string()))
    );
    assert_eq!(app.thread_event_channels[0].buffer.len(), 2);
    assert_eq!(
        app.enqueue_thread_history_entry_response("thread", 1, 2),
        (false, None)
    );
    assert!(matches!(
        app.thread_event_channels[0].buffer[0],
        ThreadBufferedEvent::HistoryEntryResponse {
            log_id: 1,
            offset: 1
        }
    ));
}

#[test]
fn threads_that_wait_for_an_approval_are_listed_in_order() {
    let mut app = showing("shown");
    for thread_id in ["b", "parent", "a", "aa", "idle"] {
        let at = app.ensure_thread_channel(thread_id);
        app.thread_event_channels[at].has_pending_approvals = thread_id != "idle";
    }
    app.thread_event_channels[0].has_pending_approvals = true;
    app.active_side_parent_thread_id = Some("parent".to_string());
    assert_eq!(
        app.refresh_pending_thread_approvals(),
        vec!["Agent (a)", "Agent (aa)", "Agent (b)"]
    );
}

#[test]
fn waiting_requests_of_hidden_threads_are_surfaced() {
    let mut app = showing("shown");
    app.thread_event_channels[0].pending_requests = vec!["0".to_string()];
    let at = app.ensure_thread_channel("hidden");
    app.thread_event_channels[at].pending_requests = vec!["1".to_string(), "2".to_string()];
    let requests = app.surface_pending_inactive_thread_interactive_requests();
    assert_eq!(requests.len(), 2);
    assert_eq!(requests[0].thread_id, "hidden");
    assert_eq!(requests[1].request_id, "2");
    app.active_side_parent_thread_id = Some("shown".to_string());
    assert!(app
        .surface_pending_inactive_thread_interactive_requests()
        .is_empty());
}

#[test]
fn collaborating_threads_are_cached_once() {
    let mut app = app();
    app.agent_navigation.push(AgentEntry {
        thread_id: "known".to_string(),
        item_name: "Agent".to_string(),
    });
    let receiver = |thread_id: Option<&str>, not_found: bool| CollabReceiver {
        thread_id: thread_id.map(str::to_string),
        not_found,
    };
    let receivers = Some(vec![
        receiver(Some("new"), false),
        receiver(Some("known"), false),
        receiver(None, false),
        receiver(Some("gone"), true),
        receiver(Some("new"), false),
    ]);
    assert_eq!(
        app.cache_collab_receiver_threads_for_notification(false, &receivers),
        vec!["new".to_string()]
    );
    assert!(app
        .cache_collab_receiver_threads_for_notification(true, &receivers)
        .is_empty());
    assert!(app
        .cache_collab_receiver_threads_for_notification(false, &None)
        .is_empty());
}

fn outcome_of(app: &App, request: &ServerRequest) -> InteractiveOutcome {
    match app.interactive_request_for_thread_request(
        "0123456789",
        &"/config".to_string(),
        request,
    ) {
        Ok(outcome) => outcome,
        Err(message) => panic!("{message}"),
    }
}

#[test]
fn a_command_is_put_to_the_user_with_what_it_says() {
    let app = app();
    let mut request = ServerRequest::CommandExecutionApproval {
        item_id: "item".to_string(),
        approval_id: None,
        environment_id: None,
        command: None,
        reason: Some("why".to_string()),
        available_decisions: None,
        default_decisions: vec!["accept".to_string()],
        network_approval_context: None,
        additional_permissions: None,
    };
    assert!(matches!(
        outcome_of(&app, &request),
        InteractiveOutcome::Show(ThreadInteractiveRequest::Approval(ApprovalRequest::Exec {
            thread_id,
            thread_label: Some(label),
            id,
            command,
            available_decisions,
            ..
        })) if thread_id == "0123456789" && label == "Agent (01234567)" && id == "item"
            && command.is_empty() && available_decisions == ["accept"]
    ));
    if let ServerRequest::CommandExecutionApproval {
        approval_id,
        command,
        available_decisions,
        ..
    } = &mut request
    {
        *approval_id = Some("approval".to_string());
        *command = Some(vec!["ls".to_string(), "-l".to_string()]);
        *available_decisions = Some(Vec::new());
    }
    assert!(matches!(
        outcome_of(&app, &request),
        InteractiveOutcome::Show(ThreadInteractiveRequest::Approval(ApprovalRequest::Exec {
            id,
            command,
            available_decisions,
            ..
        })) if id == "approval" && command == ["ls", "-l"] && available_decisions.is_empty()
    ));
}

#[test]
fn a_patch_is_previewed_where_it_changes_something() {
    let mut app = app();
    let request = ServerRequest::FileChangeApproval {
        item_id: "item".to_string(),
        reason: None,
        changes: Some(vec!["a.rs".to_string()]),
    };
    let shown = match outcome_of(&app, &request) {
        InteractiveOutcome::Show(shown) => shown,
        _ => panic!("a patch is shown"),
    };
    assert!(matches!(
        App::push_thread_interactive_request(&shown),
        InteractiveView::Approval {
            preview_patch: true
        }
    ));
    assert!(matches!(
        shown,
        ThreadInteractiveRequest::Approval(ApprovalRequest::ApplyPatch { cwd, .. })
            if cwd == "/config"
    ));
    let at = app.ensure_thread_channel("0123456789");
    app.thread_event_channels[at].session = Some(session("0123456789"));
    let unknown = ServerRequest::FileChangeApproval {
        item_id: "item".to_string(),
        reason: None,
        changes: None,
    };
    let shown = match outcome_of(&app, &unknown) {
        InteractiveOutcome::Show(shown) => shown,
        _ => panic!("a patch is shown"),
    };
    assert!(matches!(
        App::push_thread_interactive_request(&shown),
        InteractiveView::Approval {
            preview_patch: false
        }
    ));
    assert!(matches!(
        shown,
        ThreadInteractiveRequest::Approval(ApprovalRequest::ApplyPatch { cwd, .. })
            if cwd == "/work"
    ));
}

#[test]
fn an_elicitation_is_shown_approved_or_declined() {
    let app = app();
    let elicitation =
        |kind: ElicitationKind, is_app_link: bool, is_form: bool| ServerRequest::McpServerElicitation {
            request_id: "1".to_string(),
            server_name: "server".to_string(),
            kind,
            is_app_link,
            is_form,
        };
    assert!(matches!(
        outcome_of(&app, &elicitation(ElicitationKind::Url, true, true)),
        InteractiveOutcome::Show(ThreadInteractiveRequest::AppLink { .. })
    ));
    assert!(matches!(
        outcome_of(&app, &elicitation(ElicitationKind::OpenAiForm, false, true)),
        InteractiveOutcome::Show(ThreadInteractiveRequest::McpServerElicitation { .. })
    ));
    assert!(matches!(
        outcome_of(
            &app,
            &elicitation(
                ElicitationKind::Form {
                    message: "name?".to_string()
                },
                false,
                false
            )
        ),
        InteractiveOutcome::Show(ThreadInteractiveRequest::Approval(
            ApprovalRequest::McpElicitation { message, .. }
        )) if message == "name?"
    ));
    assert!(matches!(
        outcome_of(&app, &elicitation(ElicitationKind::Url, false, false)),
        InteractiveOutcome::Decline { server_name, request_id }
            if server_name == "server" && request_id == "1"
    ));
    assert!(matches!(
        outcome_of(&app, &ServerRequest::Other),
        InteractiveOutcome::Nothing
    ));
}

#[test]
fn permissions_need_native_paths() {
    let app = app();
    let request = |permissions: Result<String, String>| ServerRequest::PermissionsApproval {
        item_id: "item".to_string(),
        environment_id: None,
        reason: None,
        permissions,
    };
    assert!(matches!(
        outcome_of(&app, &request(Ok("read /".to_string()))),
        InteractiveOutcome::Show(ThreadInteractiveRequest::Approval(
            ApprovalRequest::Permissions { call_id, permissions, .. }
        )) if call_id == "item" && permissions == "read /"
    ));
    assert!(matches!(
        app.interactive_request_for_thread_request(
            "thread",
            &"/config".to_string(),
            &request(Err("not a path".to_string())),
        ),
        Err(message)
            if message == "failed to localize requested filesystem paths: not a path"
    ));
}
