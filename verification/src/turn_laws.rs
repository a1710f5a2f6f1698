//! What a user turn and what is sent for it have in common.
use crate::dispatch::{
    composer_correction_thread_id, correction_commit_request,
    dispatch_composer_correction_unbounded, submission_typed_error_outcome, submit_thread_op,
    try_resolve_app_server_request, CorrectionCommitRequest, CorrectionReply, NativeDispatch,
    OpCall, OpEnd, OpReply, OpStep, RequestFailure, ResolutionReply, ResolutionStep, SteerFailure,
    SteerStep, SubmitThreadOpStep, ThreadOp, TurnReply,
};
use crate::ids::{hyphenated_text, hyphenated_text_injective, Uuid};
use crate::pending::client_message_id_injective;
use crate::receipt::{CorrectionDispatchOutcome, PreparedCorrection, SubmissionDispatchOutcome};
use crate::routing::{
    channel_unmoved, correction_server_error_outcome, App, ThreadEventChannel,
};
use crate::submission::NativeComposerSubmission;
use crate::target::text_view;
use crate::turn::{NewTurn, TurnConfig, TurnMessage, TurnPermissionsOverride, UserTurn};
use crate::wire::ErrorCode;
use vstd::prelude::*;
use vstd::string::*;

verus! {

/// The messages are the same: what is sent, under which identity, and how it is announced.
pub open spec fn same_message(a: TurnMessage, b: TurnMessage) -> bool {
    &&& a.items@ == b.items@
    &&& text_view(a.client_user_message_id) == text_view(b.client_user_message_id)
    &&& match (a.composer_receipt, b.composer_receipt) {
        (Some(x), Some(y)) => x.0@ == y.0@ && x.1@ == y.1@,
        (None, None) => true,
        _ => false,
    }
}

/// The turns that are started are the same: in what is sent, and in every setting.
pub open spec fn same_start(a: NewTurn, b: NewTurn) -> bool {
    &&& same_message(a.message, b.message)
    &&& a.workspace_roots@ == b.workspace_roots@
    &&& a == (NewTurn { message: a.message, workspace_roots: a.workspace_roots, ..b })
}

/// A turn starts in the collaboration mode of the user turn that it was made from: turns that
/// differ in their mode start differently.
pub proof fn a_turn_starts_in_its_mode(
    turn: UserTurn,
    other: UserTurn,
    config: TurnConfig,
    started: NewTurn,
    other_started: NewTurn,
)
    requires
        call_ensures(UserTurn::new_turn, (&turn, &config), started),
        call_ensures(UserTurn::new_turn, (&other, &config), other_started),
    ensures
        started.collaboration_mode == turn.collaboration_mode,
        turn.collaboration_mode != other.collaboration_mode ==> started.collaboration_mode
            != other_started.collaboration_mode,
{
}

/// Whatever a user turn says of how it is to run, the turn that is started says too, whatever it
/// is started under.
pub proof fn a_turn_starts_as_it_was_asked(turn: UserTurn, config: TurnConfig, started: NewTurn)
    requires
        call_ensures(UserTurn::new_turn, (&turn, &config), started),
    ensures
        started.message.items@ == turn.items@,
        started.cwd == turn.cwd,
        started.approval_policy == turn.approval_policy,
        started.model == turn.model,
        started.effort == turn.effort,
        started.summary == turn.summary,
        started.service_tier == turn.service_tier,
        started.collaboration_mode == turn.collaboration_mode,
        started.personality == turn.personality,
        started.final_output_json_schema == turn.final_output_json_schema,
        turn.approvals_reviewer is Some ==> turn.approvals_reviewer == Some(
            started.approvals_reviewer,
        ),
{
}

/// What a user turn leaves open is taken from the configuration: who approves, and where the turn
/// works. Two turns that are alike start alike.
pub proof fn a_turn_takes_the_rest_from_the_configuration(
    turn: UserTurn,
    config: TurnConfig,
    started: NewTurn,
)
    requires
        call_ensures(UserTurn::new_turn, (&turn, &config), started),
    ensures
        turn.approvals_reviewer is None ==> started.approvals_reviewer
            == config.approvals_reviewer,
        started.workspace_roots@ == config.user_visible_workspace_roots@,
{
}

/// A profile that the user turn selects is the one that the turn runs under. Without one, the
/// server keeps its own, unless the profile in effect is one that was chosen locally.
pub proof fn a_selected_profile_is_used(turn: UserTurn, config: TurnConfig, started: NewTurn)
    requires
        call_ensures(UserTurn::new_turn, (&turn, &config), started),
    ensures
        turn.active_permission_profile matches Some(profile) ==> started.permissions_override
            == TurnPermissionsOverride::ActiveProfile(profile),
        turn.active_permission_profile is None
            && config.runtime_permission_profile_override is None
            ==> started.permissions_override is Preserve,
        turn.active_permission_profile is None ==> {
            config.runtime_permission_profile_override matches Some(local) ==> (if local@
                == config.effective_permission_profile@ {
                started.permissions_override == TurnPermissionsOverride::LegacySandbox(
                    config.effective_permission_profile,
                )
            } else {
                started.permissions_override is Preserve
            })
        },
{
}

/// A message is sent under the identity of its submission and announced by its receipt, and its
/// items are those of the turn. What carries no submission has neither.
pub proof fn a_message_is_that_of_its_submission(
    turn: UserTurn,
    message: TurnMessage,
    submission: NativeComposerSubmission,
    client_id: String,
    receipt: (String, String),
)
    requires
        call_ensures(UserTurn::message, (&turn,), message),
        call_ensures(NativeComposerSubmission::client_user_message_id, (&submission,), client_id),
        call_ensures(NativeComposerSubmission::receipt_context, (&submission,), receipt),
    ensures
        message.items@ == turn.items@,
        turn.composer_submission == Some(submission) ==> {
            &&& message.client_user_message_id matches Some(sent)
            &&& sent@ == client_id@
            &&& message.composer_receipt matches Some(announced)
            &&& announced.0@ == receipt.0@
            &&& announced.1@ == receipt.1@
        },
        turn.composer_submission is None ==> message.client_user_message_id is None
            && message.composer_receipt is None,
{
}

/// Messages of two submissions are sent under two identities.
pub proof fn messages_are_told_apart(
    a: UserTurn,
    b: UserTurn,
    sent_a: TurnMessage,
    sent_b: TurnMessage,
)
    requires
        call_ensures(UserTurn::message, (&a,), sent_a),
        call_ensures(UserTurn::message, (&b,), sent_b),
        a.composer_submission is Some,
        b.composer_submission is Some,
    ensures
        (a.composer_submission->0.submission_id == b.composer_submission->0.submission_id) == (
        sent_a.client_user_message_id->0@ == sent_b.client_user_message_id->0@),
{
    if sent_a.client_user_message_id->0@ == sent_b.client_user_message_id->0@ {
        client_message_id_injective(
            a.composer_submission->0.submission_id,
            b.composer_submission->0.submission_id,
        );
    }
}

/// A submission goes into the turn that runs in its thread, and starts one only where none runs.
/// What goes out is the message of the turn itself, under its own settings.
pub proof fn a_submission_goes_into_the_running_turn(
    app: App,
    thread_id: &str,
    turn: UserTurn,
    running: Option<String>,
    dispatch: NativeDispatch,
    own_message: TurnMessage,
    own_start: NewTurn,
)
    requires
        call_ensures(UserTurn::message, (&turn,), own_message),
        call_ensures(UserTurn::new_turn, (&turn, &app.turn_config), own_start),
        call_ensures(App::active_turn_id_for_thread, (&app, thread_id), running),
        call_ensures(
            App::dispatch_native_composer_submit_unbounded,
            (&app, thread_id, &(ThreadOp::UserTurn { turn })),
            dispatch,
        ),
    ensures
        turn.composer_submission is None ==> dispatch == NativeDispatch::Ended(
            SubmissionDispatchOutcome::NotApplied(ErrorCode::SubmissionUnavailable),
        ),
        turn.composer_submission is Some ==> match running {
            Some(turn_id) => {
                &&& dispatch matches NativeDispatch::Steer { turn_id: steered, retried, message }
                &&& steered@ == turn_id@
                &&& !retried
                &&& same_message(message, own_message)
            },
            None => {
                &&& dispatch matches NativeDispatch::Start { turn: started }
                &&& same_start(started, own_start)
            },
        },
{
}

/// Only a user turn that carries a submission is dispatched as one.
pub proof fn only_user_turns_are_submitted(
    app: App,
    thread_id: &str,
    op: ThreadOp,
    dispatch: NativeDispatch,
)
    requires
        !(op is UserTurn),
        call_ensures(
            App::dispatch_native_composer_submit_unbounded,
            (&app, thread_id, &op),
            dispatch,
        ),
    ensures
        dispatch == NativeDispatch::Ended(
            SubmissionDispatchOutcome::NotApplied(ErrorCode::SubmissionUnavailable),
        ),
{
}

/// A user turn is sent into the turn that runs in its thread, and starts one only where none runs:
/// then with its own message, mode and settings.
pub proof fn a_user_turn_is_sent_as_it_is(
    app: App,
    thread_id: &str,
    turn: UserTurn,
    running: Option<String>,
    step: OpStep,
    own_message: TurnMessage,
    own_start: NewTurn,
)
    requires
        call_ensures(UserTurn::message, (&turn,), own_message),
        call_ensures(UserTurn::new_turn, (&turn, &app.turn_config), own_start),
        call_ensures(App::active_turn_id_for_thread, (&app, thread_id), running),
        call_ensures(
            App::try_submit_active_thread_op_via_app_server,
            (&app, thread_id, &(ThreadOp::UserTurn { turn })),
            step,
        ),
    ensures
        match running {
            Some(turn_id) => {
                &&& step matches OpStep::Call(
                    OpCall::TurnSteer { turn_id: steered, retried, message },
                )
                &&& steered@ == turn_id@
                &&& !retried
                &&& message.items@ == turn.items@
                &&& same_message(message, own_message)
            },
            None => {
                &&& step matches OpStep::Call(OpCall::TurnStart { turn: started })
                &&& started.collaboration_mode == turn.collaboration_mode
                &&& started.message.items@ == turn.items@
                &&& same_start(started, own_start)
            },
        },
{
}

/// An interrupt is meant for the turn that runs in the thread, and for the start-up where none
/// runs.
pub proof fn an_interrupt_meets_the_running_turn(
    app: App,
    thread_id: &str,
    running: Option<String>,
    step: OpStep,
)
    requires
        call_ensures(App::active_turn_id_for_thread, (&app, thread_id), running),
        call_ensures(
            App::try_submit_active_thread_op_via_app_server,
            (&app, thread_id, &ThreadOp::Interrupt),
            step,
        ),
    ensures
        match running {
            Some(turn_id) => {
                &&& step matches OpStep::Call(OpCall::TurnInterrupt { turn_id: met, retried })
                &&& met@ == turn_id@
                &&& !retried
            },
            None => step == OpStep::Call(OpCall::StartupInterrupt),
        },
{
}

/// The operation is asked of the app-server with everything that it says, and nothing else is:
/// no two operations make the same request.
pub proof fn operations_are_told_apart(
    app: App,
    thread_id: &str,
    a: ThreadOp,
    b: ThreadOp,
    asked_a: OpStep,
    asked_b: OpStep,
)
    requires
        call_ensures(App::try_submit_active_thread_op_via_app_server, (&app, thread_id, &a), asked_a),
        call_ensures(App::try_submit_active_thread_op_via_app_server, (&app, thread_id, &b), asked_b),
        asked_a == asked_b,
    ensures
        match (a, b) {
            (ThreadOp::Interrupt, ThreadOp::Interrupt) => true,
            (ThreadOp::UserTurn { turn }, ThreadOp::UserTurn { turn: other }) => turn.items@
                == other.items@,
            (
                ThreadOp::ListSkills { cwds, force_reload },
                ThreadOp::ListSkills { cwds: others, force_reload: forced },
            ) => cwds@ == others@ && force_reload == forced,
            (ThreadOp::Compact, ThreadOp::Compact) => true,
            (ThreadOp::SetThreadName { name }, ThreadOp::SetThreadName { name: other }) => name
                == other,
            (
                ThreadOp::ThreadRollback { num_turns },
                ThreadOp::ThreadRollback { num_turns: other },
            ) => num_turns == other,
            (ThreadOp::Review { target }, ThreadOp::Review { target: other }) => target == other,
            (ThreadOp::CleanBackgroundTerminals, ThreadOp::CleanBackgroundTerminals) => true,
            (
                ThreadOp::RunUserShellCommand { command },
                ThreadOp::RunUserShellCommand { command: other },
            ) => command == other,
            (ThreadOp::ReloadUserConfig, ThreadOp::ReloadUserConfig) => true,
            (
                ThreadOp::OverrideTurnContext { settings },
                ThreadOp::OverrideTurnContext { settings: other },
            ) => settings == other,
            (
                ThreadOp::ApproveGuardianDeniedAction { event },
                ThreadOp::ApproveGuardianDeniedAction { event: other },
            ) => event == other,
            (ThreadOp::Other, ThreadOp::Other) => true,
            _ => false,
        },
{
}

/// What an operation says reaches the app-server as it was said.
pub proof fn an_operation_is_asked_for_as_it_is(
    app: App,
    thread_id: &str,
    op: ThreadOp,
    step: OpStep,
)
    requires
        call_ensures(App::try_submit_active_thread_op_via_app_server, (&app, thread_id, &op), step),
    ensures
        op is Other <==> step is End,
        op is Other ==> step == OpStep::End(OpEnd::NotHandled),
        op matches ThreadOp::ListSkills { cwds, force_reload } ==> step matches OpStep::Call(
            OpCall::SkillsList { cwds: listed, force_reload: forced },
        ) && listed@ == cwds@ && forced == force_reload,
        op is Compact ==> step == OpStep::Call(OpCall::ThreadCompactStart),
        op matches ThreadOp::SetThreadName { name } ==> step matches OpStep::Call(
            OpCall::ThreadSetName { name: given },
        ) && given == name,
        op matches ThreadOp::ThreadRollback { num_turns } ==> step matches OpStep::Call(
            OpCall::ThreadRollback { num_turns: back },
        ) && back == num_turns,
        op matches ThreadOp::Review { target } ==> step matches OpStep::Call(
            OpCall::ReviewStart { target: reviewed },
        ) && reviewed == target,
        op is CleanBackgroundTerminals ==> step == OpStep::Call(OpCall::BackgroundTerminalsClean),
        op matches ThreadOp::RunUserShellCommand { command } ==> step matches OpStep::Call(
            OpCall::ShellCommand { command: run },
        ) && run == command,
        op is ReloadUserConfig ==> step == OpStep::Call(OpCall::ReloadUserConfig),
        op matches ThreadOp::OverrideTurnContext { settings } ==> step matches OpStep::Call(
            OpCall::SyncOverrideTurnContext { settings: synced },
        ) && synced == settings,
        op matches ThreadOp::ApproveGuardianDeniedAction { event } ==> step matches OpStep::Call(
            OpCall::ApproveGuardianDeniedAction { event: approved },
        ) && approved == event,
{
}

/// A request that failed is known not to have been applied only where the server answered; where
/// the answer was lost or could not be read, nothing is known.
pub proof fn only_an_answer_settles_a_submission(
    failure: RequestFailure,
    outcome: SubmissionDispatchOutcome,
)
    requires
        call_ensures(submission_typed_error_outcome, (&failure,), outcome),
    ensures
        failure is Server <==> outcome is NotApplied,
        !(failure is Server) <==> outcome is Unknown,
        outcome matches SubmissionDispatchOutcome::NotApplied(code) ==> code
            == ErrorCode::SubmissionUnavailable,
{
}

/// A correction is known not to have been applied only where the server rejected the request as
/// such: as an invalid request or for invalid parameters. Any other error leaves it open.
pub proof fn only_a_rejection_settles_a_correction(code: i64, outcome: CorrectionDispatchOutcome)
    requires
        call_ensures(correction_server_error_outcome, (code,), outcome),
    ensures
        outcome is NotApplied <==> code == -32600 || code == -32602,
        outcome is Unknown <==> !(code == -32600 || code == -32602),
{
}

/// A correction is asked for once more where the first answer was lost, and not where the second
/// was: then nothing is known. An answer settles it at once, first or second.
pub proof fn a_lost_answer_is_asked_for_once_more(
    reply: CorrectionReply,
    first: Option<CorrectionDispatchOutcome>,
    second: Option<CorrectionDispatchOutcome>,
)
    requires
        call_ensures(dispatch_composer_correction_unbounded, (false, reply), first),
        call_ensures(dispatch_composer_correction_unbounded, (true, reply), second),
    ensures
        first is None <==> reply is Lost,
        second is Some,
        reply is Lost ==> second == Some(CorrectionDispatchOutcome::Unknown),
        !(reply is Lost) ==> first == second,
        first == Some(CorrectionDispatchOutcome::Accepted) <==> reply is Accepted,
        reply matches CorrectionReply::ServerError(code) ==> first == Some(
            if code == -32600 || code == -32602 {
                CorrectionDispatchOutcome::NotApplied
            } else {
                CorrectionDispatchOutcome::Unknown
            },
        ),
{
}

/// A correction is committed in its thread, against the message and with the text that were
/// prepared, and under its own identity, however often it is asked for; corrections that differ
/// are told apart by it.
pub proof fn a_correction_is_committed_as_prepared(
    pending: PreparedCorrection,
    other: PreparedCorrection,
    thread_id: &str,
    request: CorrectionCommitRequest,
    again: CorrectionCommitRequest,
    other_request: CorrectionCommitRequest,
)
    requires
        call_ensures(correction_commit_request, (&pending, thread_id), request),
        call_ensures(correction_commit_request, (&pending, thread_id), again),
        call_ensures(correction_commit_request, (&other, thread_id), other_request),
    ensures
        request.thread_id@ == thread_id@,
        request.payload == pending.payload,
        request.expected_client_user_message_id == pending.expected_client_user_message_id,
        request.correction_id@ == hyphenated_text(pending.correction_id),
        request.correction_id@ == again.correction_id@,
        exists|id: Uuid|
            crate::ids::is_version_4(id) && request.request_id@ == "composer-correction-"@
                + #[trigger] hyphenated_text(id),
        request.correction_id@ == other_request.correction_id@ <==> pending.correction_id
            == other.correction_id,
{
    if request.correction_id@ == other_request.correction_id@ {
        hyphenated_text_injective(pending.correction_id, other.correction_id);
    }
}

/// A correction for what is no thread is refused, and one for a thread goes to that thread.
pub proof fn a_correction_goes_to_its_thread(
    parsed: Option<String>,
    thread_id: Result<String, CorrectionDispatchOutcome>,
)
    requires
        call_ensures(composer_correction_thread_id, (parsed,), thread_id),
    ensures
        thread_id is Ok <==> parsed is Some,
        thread_id matches Ok(found) ==> parsed == Some(found),
        thread_id matches Err(outcome) ==> outcome is NotApplied,
{
}

/// A message that the server took is taken into the turn that the server names; only a turn that
/// was started, and in the thread that is shown, is recorded for a safety retry.
pub proof fn a_taken_message_is_in_the_named_turn(
    app: &mut App,
    thread_id: &str,
    turn: UserTurn,
    dispatch: NativeDispatch,
    turn_id: String,
    next: NativeDispatch,
)
    requires
        dispatch is Steer || dispatch is Start,
        call_ensures(
            App::advance_native_dispatch,
            (app, thread_id, &turn, dispatch, TurnReply::Taken { turn_id }),
            next,
        ),
    ensures
        next matches NativeDispatch::Taken { turn_id: into, record_safety_buffering } && into
            == turn_id && record_safety_buffering == (dispatch is Start
            && old(app).active_thread_id is Some && old(app).active_thread_id->0@ == thread_id@
            && old(app).chat_widget.thread_id is Some && old(app).chat_widget.thread_id->0@
            == thread_id@),
        *final(app) == *old(app),
{
}

/// A steer that meets another turn is tried once more, in that turn and with the same message; the
/// second time, or where it names the turn that was tried, it is given up.
pub proof fn a_steer_follows_the_running_turn_once(
    app: &mut App,
    thread_id: &str,
    turn: UserTurn,
    turn_id: String,
    retried: bool,
    message: TurnMessage,
    actual: String,
    next: NativeDispatch,
    own_message: TurnMessage,
)
    requires
        call_ensures(UserTurn::message, (&turn,), own_message),
        call_ensures(
            App::advance_native_dispatch,
            (
                app,
                thread_id,
                &turn,
                NativeDispatch::Steer { turn_id, retried, message },
                TurnReply::SteerFailed(SteerFailure::TurnMismatch(actual)),
            ),
            next,
        ),
    ensures
        !retried && actual@ != turn_id@ ==> {
            &&& next matches NativeDispatch::Steer {
                turn_id: steered,
                retried: again,
                message: sent,
            }
            &&& steered@ == actual@
            &&& again
            &&& same_message(sent, own_message)
        },
        retried || actual@ == turn_id@ ==> next == NativeDispatch::Ended(
            SubmissionDispatchOutcome::NotApplied(ErrorCode::SubmissionUnavailable),
        ),
        old(app).has_channel(thread_id@) ==> final(app).running_turn(thread_id@) == Some(actual@),
{
    let step = choose|step: SteerStep| #[trigger]
        old(app).steer_step(
            *final(app),
            thread_id@,
            turn_id@,
            retried,
            SteerFailure::TurnMismatch(actual),
            step,
        );
    noted_turn_runs(*old(app), *final(app), thread_id@, Some(actual));
}

/// A turn that was noted is the one that runs.
proof fn noted_turn_runs(app: App, after: App, thread_id: Seq<char>, turn_id: Option<String>)
    requires
        app.turn_noted(after, thread_id, turn_id),
    ensures
        app.has_channel(thread_id) ==> after.has_channel(thread_id) && after.channel(
            thread_id,
        ).active_turn_id == turn_id,
{
    if app.has_channel(thread_id) {
        let at = crate::routing::channel_index(app.thread_event_channels@, thread_id, 0) as int;
        crate::routing_laws::found_channel(app.thread_event_channels@, thread_id, 0);
        channel_unmoved(
            app.thread_event_channels@,
            after.thread_event_channels@,
            thread_id,
            0,
        );
    }
}

/// Where the turn that was to be steered is gone, a turn is started with the same message, mode
/// and settings, and none is known to run any more.
pub proof fn a_missing_turn_is_replaced(
    app: &mut App,
    thread_id: &str,
    turn: UserTurn,
    turn_id: String,
    retried: bool,
    message: TurnMessage,
    next: NativeDispatch,
    own_start: NewTurn,
)
    requires
        call_ensures(UserTurn::new_turn, (&turn, &old(app).turn_config), own_start),
        call_ensures(
            App::advance_native_dispatch,
            (
                app,
                thread_id,
                &turn,
                NativeDispatch::Steer { turn_id, retried, message },
                TurnReply::SteerFailed(SteerFailure::TurnMissing),
            ),
            next,
        ),
    ensures
        next matches NativeDispatch::Start { turn: started } && same_start(started, own_start),
        old(app).has_channel(thread_id@) ==> final(app).running_turn(thread_id@) is None,
{
    let step = choose|step: SteerStep| #[trigger]
        old(app).steer_step(
            *final(app),
            thread_id@,
            turn_id@,
            retried,
            SteerFailure::TurnMissing,
            step,
        );
    noted_turn_runs(*old(app), *final(app), thread_id@, None);
}

/// A turn that takes no message, and a start that the server refused, leave the submission known
/// not to be applied; a start whose answer was lost leaves it open.
pub proof fn a_refused_dispatch_ends(
    app: &mut App,
    thread_id: &str,
    turn: UserTurn,
    dispatch: NativeDispatch,
    reply: TurnReply,
    next: NativeDispatch,
)
    requires
        call_ensures(
            App::advance_native_dispatch,
            (app, thread_id, &turn, dispatch, reply),
            next,
        ),
    ensures
        dispatch is Steer && (reply matches TurnReply::SteerFailed(failure) && failure is NotSteerable)
            ==> next == NativeDispatch::Ended(
            SubmissionDispatchOutcome::NotApplied(ErrorCode::SubmissionUnavailable),
        ),
        dispatch is Steer ==> (reply matches TurnReply::SteerFailed(SteerFailure::Other(failure))
            ==> next matches NativeDispatch::Ended(outcome) && (outcome is NotApplied
            <==> failure is Server) && (outcome is Unknown <==> !(failure is Server))),
        dispatch is Start ==> (reply matches TurnReply::StartFailed(failure) ==> next matches
        NativeDispatch::Ended(outcome) && (outcome is NotApplied <==> failure
            == Some(RequestFailure::Server)) && (outcome is Unknown <==> failure != Some(
            RequestFailure::Server,
        ))),
        next is Ended && !(dispatch is Ended) ==> !(next->Ended_0 is Accepted)
            && !(next->Ended_0 is AcceptedButUncommitted),
        dispatch is Ended || dispatch is Taken ==> next == dispatch && *final(app) == *old(app),
        dispatch is Start ==> *final(app) == *old(app),
{
    if let (
        NativeDispatch::Steer { turn_id, retried, .. },
        TurnReply::SteerFailed(failure),
    ) = (dispatch, reply) {
        let step = choose|step: SteerStep| #[trigger]
            old(app).steer_step(*final(app), thread_id@, turn_id@, retried, failure, step)
                && (match step {
                SteerStep::NotSteerable(_) | SteerStep::TurnMismatch => next
                    == crate::dispatch::not_submitted(),
                SteerStep::Failed(failure) => next == NativeDispatch::Ended(
                    crate::dispatch::failure_outcome(failure),
                ),
                _ => !(next is Ended),
            });
    }
}

/// An interrupt that meets another turn is tried once more, in that turn; else it has failed.
pub proof fn an_interrupt_follows_the_running_turn_once(
    app: &mut App,
    thread_id: &str,
    op: ThreadOp,
    turn_id: String,
    retried: bool,
    actual: Option<String>,
    step: OpStep,
)
    requires
        call_ensures(
            App::advance_thread_op,
            (
                app,
                thread_id,
                &op,
                OpCall::TurnInterrupt { turn_id, retried },
                OpReply::InterruptFailed { actual_turn_id: actual },
            ),
            step,
        ),
    ensures
        match actual {
            Some(other) if !retried && other@ != turn_id@ => step == OpStep::Call(
                OpCall::TurnInterrupt { turn_id: other, retried: true },
            ),
            _ => step == OpStep::End(OpEnd::Failed),
        },
        *final(app) == *old(app),
{
}

/// A user turn whose message the server took is done, and its submission waits to be seen in the
/// turn that the server names; a turn without a submission leaves nothing to wait for.
pub proof fn a_taken_turn_is_awaited(
    app: &mut App,
    thread_id: &str,
    turn: UserTurn,
    call: OpCall,
    turn_id: String,
    step: OpStep,
)
    requires
        old(app).well_formed(),
        call is TurnSteer || call is TurnStart,
        call_ensures(
            App::advance_thread_op,
            (app, thread_id, &(ThreadOp::UserTurn { turn }), call, OpReply::TurnTaken { turn_id }),
            step,
        ),
    ensures
        call is TurnSteer ==> step == OpStep::End(OpEnd::Handled),
        call is TurnStart ==> {
            &&& step matches OpStep::End(
                OpEnd::TurnStarted { turn_id: started, record_safety_buffering },
            )
            &&& started == turn_id
            &&& record_safety_buffering == (old(app).active_thread_id is Some && old(app).active_thread_id->0@ == thread_id@ && old(app).chat_widget.thread_id is Some && old(app).chat_widget.thread_id->0@ == thread_id@)
        },
        turn.composer_submission matches Some(submission) ==> {
            let awaited = crate::ledger::filed(final(app).pending(), submission.submission_id);
            &&& awaited.submission@ == submission@
            &&& awaited.turn_id matches Some(into)
            &&& into@ == turn_id@
            &&& !awaited.item_committed
            &&& awaited.external_commit is None
            &&& final(app).transitions() == old(app).transitions().push(
                crate::pending::TransitionView::Pending(submission@),
            )
            &&& crate::pending_laws::others_wait(
                *old(app),
                *final(app),
                submission.submission_id,
            )
            &&& crate::ledger::holds(final(app).pending(), submission.submission_id)
        },
        final(app).thread_event_channels == old(app).thread_event_channels,
        final(app).active_thread_id == old(app).active_thread_id,
        turn.composer_submission is None ==> *final(app) == *old(app),
{
    if let Some(submission) = turn.composer_submission {
        let id = submission.submission_id;
        crate::pending_laws::filed_anew(
            old(app).pending(),
            id,
            crate::ledger::filed(final(app).pending(), id),
        );
    }
}

/// What the server did not do is not reported as done: a failed request ends in failure, whatever
/// was asked, but for a list of skills and settings, which are had as far as they can be.
pub proof fn a_failed_request_is_not_reported_as_done(
    app: &mut App,
    thread_id: &str,
    op: ThreadOp,
    call: OpCall,
    step: OpStep,
)
    requires
        call_ensures(
            App::advance_thread_op,
            (app, thread_id, &op, call, OpReply::Failed),
            step,
        ),
    ensures
        call is SkillsList || call is SyncOverrideTurnContext ==> step == OpStep::End(
            OpEnd::Handled,
        ),
        call is ThreadRollback ==> step == OpStep::End(OpEnd::RollbackFailed),
        !(call is SkillsList || call is SyncOverrideTurnContext || call is ThreadRollback)
            ==> step == OpStep::End(OpEnd::Failed),
        *final(app) == *old(app),
{
}

/// What the server did is reported as done, a rollback with the number of turns that were asked
/// for; a message and a review are done only with the turn that took them.
pub proof fn a_done_request_is_reported(
    app: &mut App,
    thread_id: &str,
    op: ThreadOp,
    call: OpCall,
    step: OpStep,
)
    requires
        call_ensures(App::advance_thread_op, (app, thread_id, &op, call, OpReply::Done), step),
    ensures
        call matches OpCall::ThreadRollback { num_turns } ==> step matches OpStep::End(
            OpEnd::RolledBack { num_turns: back },
        ) && back == num_turns,
        call is TurnSteer || call is TurnStart || call is ReviewStart ==> step == OpStep::End(
            OpEnd::Failed,
        ),
        !(call is TurnSteer || call is TurnStart || call is ReviewStart || call is ThreadRollback)
            ==> step == OpStep::End(OpEnd::Handled),
        *final(app) == *old(app),
{
}

/// A steer of an operation that fails goes on as that of a submission does: with the same message
/// in the turn that runs, with a new turn where none runs, and else not at all.
pub proof fn a_failed_steer_goes_on_with_the_same_turn(
    app: &mut App,
    thread_id: &str,
    turn: UserTurn,
    turn_id: String,
    retried: bool,
    message: TurnMessage,
    failure: SteerFailure,
    step: OpStep,
    own_message: TurnMessage,
    own_start: NewTurn,
)
    requires
        call_ensures(UserTurn::message, (&turn,), own_message),
        call_ensures(UserTurn::new_turn, (&turn, &old(app).turn_config), own_start),
        call_ensures(
            App::advance_thread_op,
            (
                app,
                thread_id,
                &(ThreadOp::UserTurn { turn }),
                OpCall::TurnSteer { turn_id, retried, message },
                OpReply::SteerFailed(failure),
            ),
            step,
        ),
    ensures
        match failure {
            SteerFailure::NotSteerable(reason) => step == OpStep::End(OpEnd::SteerRejected(reason))
                && *final(app) == *old(app),
            SteerFailure::TurnMissing => step matches OpStep::Call(OpCall::TurnStart { turn: started })
                && same_start(started, own_start),
            SteerFailure::TurnMismatch(actual) => if !retried && actual@ != turn_id@ {
                &&& step matches OpStep::Call(
                    OpCall::TurnSteer { turn_id: steered, retried: again, message: sent },
                )
                &&& steered@ == actual@
                &&& again
                &&& same_message(sent, own_message)
            } else {
                step == OpStep::End(OpEnd::Failed)
            },
            SteerFailure::Other(_) => step == OpStep::End(OpEnd::Failed) && *final(app) == *old(app),
        },
{
    let steered = choose|steered: SteerStep| #[trigger]
        old(app).steer_step(*final(app), thread_id@, turn_id@, retried, failure, steered)
            && old(app).steered_step(ThreadOp::UserTurn { turn }, steered, step);
}

/// A review that started runs in the thread and the turn that the server names; one whose thread
/// cannot be read has failed.
pub proof fn a_review_runs_where_the_server_says(
    app: &mut App,
    thread_id: &str,
    op: ThreadOp,
    target: String,
    review_thread_id: Option<String>,
    turn_id: String,
    step: OpStep,
)
    requires
        call_ensures(
            App::advance_thread_op,
            (
                app,
                thread_id,
                &op,
                OpCall::ReviewStart { target },
                OpReply::ReviewStarted { review_thread_id, turn_id },
            ),
            step,
        ),
    ensures
        match review_thread_id {
            Some(review) => step == OpStep::End(OpEnd::Handled) && final(app).running_turn(review@)
                == Some(turn_id@),
            None => step == OpStep::End(OpEnd::Failed) && *final(app) == *old(app),
        },
{
}

/// The user is shown what went wrong with the skills, and nothing where nothing did.
pub proof fn an_error_of_the_skills_is_shown(
    app: App,
    error: Option<String>,
    failure_message: &str,
    shown: Option<String>,
)
    requires
        call_ensures(App::handle_skills_list_result, (&app, &error, failure_message), shown),
    ensures
        shown is Some <==> error is Some,
        error is Some ==> failure_message@.is_prefix_of(shown->0@) && error->0@.is_suffix_of(
            shown->0@,
        ),
{
    if error is Some {
        let text = shown->0@;
        assert(failure_message@.is_prefix_of(text));
        assert(error->0@ =~= text.subrange(text.len() - error->0@.len(), text.len() as int));
    }
}

/// An operation on the active thread goes to that thread, and nowhere where there is none.
pub proof fn an_operation_goes_to_the_active_thread(app: App, target: Result<String, String>)
    requires
        call_ensures(App::submit_active_thread_op, (&app,), target),
    ensures
        target is Ok <==> app.active_thread_id is Some,
        target matches Ok(thread_id) ==> app.active_thread_id == Some(thread_id),
{
}

/// An operation that answered a request goes no further; every other one goes to the app-server,
/// and what went wrong with the answer is shown.
pub proof fn an_answer_is_not_sent_again(
    thread_id: &str,
    reply: ResolutionReply,
    changes_replay: bool,
    step: ResolutionStep,
)
    requires
        call_ensures(try_resolve_app_server_request, (thread_id, reply, changes_replay), step),
    ensures
        step is Handled <==> reply is Resolved,
        step matches ResolutionStep::Handled { note } ==> note == changes_replay,
        step matches ResolutionStep::Submit { error } ==> (error is Some <==> reply is Failed),
        reply matches ResolutionReply::Failed(error) ==> step matches ResolutionStep::Submit {
            error: Some(shown),
        } && error@.is_suffix_of(shown@),
{
    if let ResolutionReply::Failed(error) = reply {
        let text = step->error->0@;
        assert(error@ =~= text.subrange(text.len() - error@.len(), text.len() as int));
    }
}

/// An operation that the app-server carried out is noted where it changes what is replayed; of one
/// that it did not carry out the user is told.
pub proof fn an_operation_is_noted_once_done(
    thread_id: &str,
    handled: bool,
    changes_replay: bool,
    step: SubmitThreadOpStep,
)
    requires
        call_ensures(submit_thread_op, (thread_id, handled, changes_replay), step),
    ensures
        step is Done <==> handled,
        step matches SubmitThreadOpStep::Done { note } ==> note == changes_replay,
{
}

/// The user is told what went wrong in so many words: which thread, and the error itself.
pub proof fn the_user_is_told_what_went_wrong(
    app: App,
    thread_id: &str,
    error: String,
    failure_message: &str,
    changes_replay: bool,
    shown: Option<String>,
    step: ResolutionStep,
    submitted: SubmitThreadOpStep,
    target: Result<String, String>,
)
    requires
        call_ensures(
            App::handle_skills_list_result,
            (&app, &Some(error), failure_message),
            shown,
        ),
        call_ensures(
            try_resolve_app_server_request,
            (thread_id, ResolutionReply::Failed(error), changes_replay),
            step,
        ),
        call_ensures(submit_thread_op, (thread_id, false, changes_replay), submitted),
        call_ensures(App::submit_active_thread_op, (&app,), target),
    ensures
        shown is Some && shown->0@ == failure_message@ + ": "@ + error@,
        step matches ResolutionStep::Submit { error: Some(told) } && told@
            == "Failed to resolve app-server request for thread "@ + thread_id@ + ": "@ + error@,
        submitted matches SubmitThreadOpStep::Unavailable(told) && told@
            == "Not available in TUI yet for thread "@ + thread_id@ + "."@,
        target matches Err(told) ==> told@ == "No active thread is available."@,
{
}

/// A list of skills is shown as it came, and an error of it as what it is.
pub proof fn listed_skills_are_shown(
    app: &mut App,
    thread_id: &str,
    op: ThreadOp,
    cwds: Vec<String>,
    force_reload: bool,
    error: Option<String>,
    step: OpStep,
)
    requires
        call_ensures(
            App::advance_thread_op,
            (
                app,
                thread_id,
                &op,
                OpCall::SkillsList { cwds, force_reload },
                OpReply::SkillsListed { error },
            ),
            step,
        ),
    ensures
        step matches OpStep::End(OpEnd::SkillsListed { error: shown }) && (shown is Some
            <==> error is Some) && (error matches Some(reason) ==> shown->0@
            == "failed to refresh skills"@ + ": "@ + reason@),
        *final(app) == *old(app),
{
}

/// A profile that is selected goes before everything else. A local one is sent only where it is the
/// one in effect; where neither holds, the server keeps what it has.
pub proof fn a_selected_profile_goes_first(
    active: Option<String>,
    effective: String,
    local: Option<String>,
    permissions: TurnPermissionsOverride,
)
    requires
        call_ensures(
            App::turn_permissions_override_from_config,
            (&active, &effective, &local),
            permissions,
        ),
    ensures
        active matches Some(profile) ==> permissions == TurnPermissionsOverride::ActiveProfile(
            profile,
        ),
        permissions is ActiveProfile ==> active is Some,
        permissions is LegacySandbox <==> active is None && (local matches Some(profile)
            && profile@ == effective@),
        permissions matches TurnPermissionsOverride::LegacySandbox(profile) ==> profile
            == effective,
        permissions is Preserve <==> active is None && !(local matches Some(profile) && profile@
            == effective@),
{
}

} // verus!
