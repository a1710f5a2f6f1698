//! Turns, steers and corrections as they are dispatched to the app-server: what is asked next,
//! given how the last request ended.
use crate::ids::{hyphenated, hyphenated_text, is_version_4, random_uuid, Uuid};
use crate::pending::{with_pending, PendingComposerSubmissionCommit, TransitionView};
use crate::receipt::{CorrectionDispatchOutcome, PreparedCorrection, SubmissionDispatchOutcome};
use crate::routing::{
    channel_unmoved, correction_server_error_outcome, is_thread, names_thread, App,
    ThreadEventChannel, JSONRPC_INVALID_PARAMS, JSONRPC_INVALID_REQUEST,
};
use crate::submission::NativeComposerSubmission;
use crate::text::{copy_texts, same_text};
use crate::turn::{
    carries, permissions_override, starts, NewTurn, TurnMessage, TurnPermissionsOverride, UserTurn,
};
use crate::wire::ErrorCode;
use vstd::prelude::*;
use vstd::string::*;

verus! {

/// How a typed request failed.
#[derive(Clone, Copy, Debug, PartialEq, Eq, Structural)]
pub enum RequestFailure {
    /// The server answered with an error.
    Server,
    Transport,
    Deserialize,
}

/// How a failed request ends a submission: only a server that answered is known not to have
/// taken it.
pub open spec fn failure_outcome(failure: RequestFailure) -> SubmissionDispatchOutcome {
    match failure {
        RequestFailure::Server => SubmissionDispatchOutcome::NotApplied(
            ErrorCode::SubmissionUnavailable,
        ),
        _ => SubmissionDispatchOutcome::Unknown,
    }
}

/// How a failed request ends a submission.
pub fn submission_typed_error_outcome(failure: &RequestFailure) -> (outcome:
    SubmissionDispatchOutcome)
    ensures
        outcome == failure_outcome(*failure),
{
    match failure {
        RequestFailure::Server => SubmissionDispatchOutcome::NotApplied(
            ErrorCode::SubmissionUnavailable,
        ),
        RequestFailure::Transport | RequestFailure::Deserialize => {
            SubmissionDispatchOutcome::Unknown
        },
    }
}

/// How the app-server answered the commit of a correction.
#[derive(Clone, Copy, Debug, PartialEq, Eq, Structural)]
pub enum CorrectionReply {
    Accepted,
    ServerError(i64),
    /// The answer was lost, or could not be read.
    Lost,
}

/// How a correction ends after a reply; it is asked for again where the first answer was lost.
pub fn dispatch_composer_correction_unbounded(
    retried: bool,
    reply: CorrectionReply,
) -> (outcome: Option<CorrectionDispatchOutcome>)
    ensures
        outcome == match reply {
            CorrectionReply::Accepted => Some(CorrectionDispatchOutcome::Accepted),
            CorrectionReply::ServerError(code) => Some(
                if code == JSONRPC_INVALID_REQUEST || code == JSONRPC_INVALID_PARAMS {
                    CorrectionDispatchOutcome::NotApplied
                } else {
                    CorrectionDispatchOutcome::Unknown
                },
            ),
            CorrectionReply::Lost => if retried {
                Some(CorrectionDispatchOutcome::Unknown)
            } else {
                None
            },
        },
{
    match reply {
        CorrectionReply::Accepted => Some(CorrectionDispatchOutcome::Accepted),
        CorrectionReply::ServerError(code) => Some(correction_server_error_outcome(code)),
        CorrectionReply::Lost => if retried {
            Some(CorrectionDispatchOutcome::Unknown)
        } else {
            None
        },
    }
}

/// The request that commits a correction. Asked for again, it names the same correction.
pub struct CorrectionCommitRequest {
    pub request_id: String,
    pub thread_id: String,
    pub correction_id: String,
    pub expected_client_user_message_id: String,
    pub payload: String,
}

/// The request that commits `pending` in `thread_id`, under a new request identifier.
pub fn correction_commit_request(pending: &PreparedCorrection, thread_id: &str) -> (request:
    CorrectionCommitRequest)
    ensures
        exists|id: Uuid|
            is_version_4(id) && request.request_id@ == "composer-correction-"@
                + #[trigger] hyphenated_text(id),
        request.thread_id@ == thread_id@,
        request.correction_id@ == hyphenated_text(pending.correction_id),
        request.expected_client_user_message_id == pending.expected_client_user_message_id,
        request.payload == pending.payload,
{
    let id: Uuid = random_uuid();
    CorrectionCommitRequest {
        request_id: String::from_str("composer-correction-").concat(hyphenated(id).as_str()),
        thread_id: String::from_str(thread_id),
        correction_id: hyphenated(pending.correction_id),
        expected_client_user_message_id: pending.expected_client_user_message_id.clone(),
        payload: pending.payload.clone(),
    }
}

/// The thread of a correction, where what it names is a thread. `parsed` is that thread.
pub fn composer_correction_thread_id(parsed: Option<String>) -> (thread_id: Result<
    String,
    CorrectionDispatchOutcome,
>)
    ensures
        match parsed {
            Some(found) => thread_id == Ok::<_, CorrectionDispatchOutcome>(found),
            None => thread_id == Err::<String, _>(CorrectionDispatchOutcome::NotApplied),
        },
{
    match parsed {
        Some(found) => Ok(found),
        None => Err(CorrectionDispatchOutcome::NotApplied),
    }
}

/// Why a running turn could not be steered.
pub enum SteerFailure {
    /// The turn takes no messages; the server says why.
    NotSteerable(String),
    /// No turn is running.
    TurnMissing,
    /// Another turn is running.
    TurnMismatch(String),
    Other(RequestFailure),
}

/// What follows a steer that failed.
pub enum SteerStep {
    /// The other turn is steered.
    Retry(String),
    /// A turn is started instead.
    StartTurn,
    NotSteerable(String),
    /// The running turn changed again.
    TurnMismatch,
    Failed(RequestFailure),
}

impl App {
    /// `after` differs from `self` at most in the turn that runs in `thread_id`, which is
    /// `turn_id` where the thread has a channel.
    pub open spec fn turn_noted(
        self,
        after: Self,
        thread_id: Seq<char>,
        turn_id: Option<String>,
    ) -> bool {
        if self.has_channel(thread_id) {
            self.rechannelled(
                after,
                thread_id,
                ThreadEventChannel { active_turn_id: turn_id, ..self.channel(thread_id) },
            )
        } else {
            after == self
        }
    }

    /// What follows a failed steer, and what is learnt from it of the running turn. A steer is
    /// tried once more at most, and only in a turn that it was not tried in.
    pub open spec fn steer_step(
        self,
        after: Self,
        thread_id: Seq<char>,
        turn_id: Seq<char>,
        retried: bool,
        failure: SteerFailure,
        step: SteerStep,
    ) -> bool {
        match failure {
            SteerFailure::NotSteerable(message) => step == SteerStep::NotSteerable(message) && after
                == self,
            SteerFailure::TurnMissing => step is StartTurn && self.turn_noted(
                after,
                thread_id,
                None,
            ),
            SteerFailure::TurnMismatch(actual) => {
                &&& match step {
                    SteerStep::Retry(next) => !retried && actual@ != turn_id && next@ == actual@,
                    SteerStep::TurnMismatch => retried || actual@ == turn_id,
                    _ => false,
                }
                &&& self.turn_noted(after, thread_id, Some(actual))
            },
            SteerFailure::Other(failure) => step == SteerStep::Failed(failure) && after == self,
        }
    }

    fn after_steer_failure(
        &mut self,
        thread_id: &str,
        turn_id: &str,
        retried: bool,
        failure: SteerFailure,
    ) -> (step: SteerStep)
        ensures
            old(self).steer_step(*final(self), thread_id@, turn_id@, retried, failure, step),
    {
        match failure {
            SteerFailure::NotSteerable(message) => SteerStep::NotSteerable(message),
            SteerFailure::TurnMissing => {
                self.set_active_turn_id(thread_id, None);
                SteerStep::StartTurn
            },
            SteerFailure::TurnMismatch(actual) => {
                let again: bool = !retried && !same_text(actual.as_str(), turn_id);
                let next: String = actual.clone();
                self.set_active_turn_id(thread_id, Some(actual));
                if again {
                    SteerStep::Retry(next)
                } else {
                    SteerStep::TurnMismatch
                }
            },
            SteerFailure::Other(failure) => SteerStep::Failed(failure),
        }
    }
}

/// Where the dispatch of a native submission stands.
pub enum NativeDispatch {
    /// The running turn is steered with the message.
    Steer { turn_id: String, retried: bool, message: TurnMessage },
    /// A turn is started.
    Start { turn: NewTurn },
    /// The message was taken into this turn. A turn that was started in the shown thread is
    /// recorded for a safety retry.
    Taken { turn_id: String, record_safety_buffering: bool },
    Ended(SubmissionDispatchOutcome),
}

/// The dispatch of what carries no submission, or cannot be placed in a turn.
pub open spec fn not_submitted() -> NativeDispatch {
    NativeDispatch::Ended(SubmissionDispatchOutcome::NotApplied(ErrorCode::SubmissionUnavailable))
}

/// The user turn of an operation that carries a submission.
pub open spec fn submitted_turn(op: ThreadOp) -> Option<UserTurn> {
    match op {
        ThreadOp::UserTurn { turn } if turn.composer_submission is Some => Some(turn),
        _ => None,
    }
}

/// How the app-server answered a steer or a start.
pub enum TurnReply {
    Taken { turn_id: String },
    SteerFailed(SteerFailure),
    /// The failure is known where the request was a typed one.
    StartFailed(Option<RequestFailure>),
}

impl App {
    /// The thread is the one that is shown.
    pub open spec fn shows(self, thread_id: Seq<char>) -> bool {
        is_thread(self.active_thread_id, thread_id) && is_thread(
            self.chat_widget.thread_id,
            thread_id,
        )
    }

    /// Starts the dispatch of a native submission: a running turn is steered, else one is
    /// started. An operation that carries no submission is refused.
    pub fn dispatch_native_composer_submit_unbounded(&self, thread_id: &str, op: &ThreadOp) -> (
    dispatch: NativeDispatch)
        ensures
            match submitted_turn(*op) {
                None => dispatch == not_submitted(),
                Some(turn) => match self.running_turn(thread_id@) {
                    Some(running) => {
                        &&& dispatch matches NativeDispatch::Steer { turn_id, retried, message }
                        &&& turn_id@ == running
                        &&& !retried
                        &&& carries(message, turn)
                    },
                    None => {
                        &&& dispatch matches NativeDispatch::Start { turn: new_turn }
                        &&& starts(new_turn, turn, self.turn_config)
                    },
                },
            },
    {
        let turn: &UserTurn = match op {
            ThreadOp::UserTurn { turn } => turn,
            _ => return NativeDispatch::Ended(
                SubmissionDispatchOutcome::NotApplied(ErrorCode::SubmissionUnavailable),
            ),
        };
        if turn.composer_submission.is_none() {
            return NativeDispatch::Ended(
                SubmissionDispatchOutcome::NotApplied(ErrorCode::SubmissionUnavailable),
            );
        }
        match self.active_turn_id_for_thread(thread_id) {
            Some(turn_id) => NativeDispatch::Steer {
                turn_id,
                retried: false,
                message: turn.message(),
            },
            None => NativeDispatch::Start { turn: turn.new_turn(&self.turn_config) },
        }
    }

    /// What a reply makes of the dispatch of a native submission. Whatever is sent next is the
    /// message of the same turn.
    pub open spec fn native_dispatch_step(
        self,
        after: Self,
        thread_id: Seq<char>,
        turn: UserTurn,
        dispatch: NativeDispatch,
        reply: TurnReply,
        next: NativeDispatch,
    ) -> bool {
        match (dispatch, reply) {
            (NativeDispatch::Steer { .. }, TurnReply::Taken { turn_id }) => {
                &&& next == (NativeDispatch::Taken { turn_id, record_safety_buffering: false })
                &&& after == self
            },
            (NativeDispatch::Steer { turn_id, retried, .. }, TurnReply::SteerFailed(failure)) => {
                exists|step: SteerStep|
                    {
                        &&& #[trigger] self.steer_step(
                            after,
                            thread_id,
                            turn_id@,
                            retried,
                            failure,
                            step,
                        )
                        &&& match step {
                            SteerStep::Retry(actual) => {
                                &&& next matches NativeDispatch::Steer {
                                    turn_id: steered,
                                    retried: again,
                                    message,
                                }
                                &&& steered == actual
                                &&& again
                                &&& carries(message, turn)
                            },
                            SteerStep::StartTurn => {
                                &&& next matches NativeDispatch::Start { turn: new_turn }
                                &&& starts(new_turn, turn, self.turn_config)
                            },
                            SteerStep::NotSteerable(_) | SteerStep::TurnMismatch => next
                                == not_submitted(),
                            SteerStep::Failed(failure) => next == NativeDispatch::Ended(
                                failure_outcome(failure),
                            ),
                        }
                    }
            },
            (NativeDispatch::Start { .. }, TurnReply::Taken { turn_id }) => {
                &&& next == (NativeDispatch::Taken {
                    turn_id,
                    record_safety_buffering: self.shows(thread_id),
                })
                &&& after == self
            },
            (NativeDispatch::Start { .. }, TurnReply::StartFailed(failure)) => {
                &&& next == NativeDispatch::Ended(
                    match failure {
                        Some(failure) => failure_outcome(failure),
                        None => SubmissionDispatchOutcome::Unknown,
                    },
                )
                &&& after == self
            },
            _ => next == dispatch && after == self,
        }
    }

    /// Goes on with the dispatch of a native submission. A reply to another request than the one
    /// that was made changes nothing.
    pub fn advance_native_dispatch(
        &mut self,
        thread_id: &str,
        turn: &UserTurn,
        dispatch: NativeDispatch,
        reply: TurnReply,
    ) -> (next: NativeDispatch)
        ensures
            old(self).native_dispatch_step(
                *final(self),
                thread_id@,
                *turn,
                dispatch,
                reply,
                next,
            ),
    {
        match (dispatch, reply) {
            (NativeDispatch::Steer { .. }, TurnReply::Taken { turn_id }) => {
                NativeDispatch::Taken { turn_id, record_safety_buffering: false }
            },
            (NativeDispatch::Steer { turn_id, retried, .. }, TurnReply::SteerFailed(failure)) => {
                let step: SteerStep = self.after_steer_failure(
                    thread_id,
                    turn_id.as_str(),
                    retried,
                    failure,
                );
                assert(old(self).steer_step(*self, thread_id@, turn_id@, retried, failure, step));
                match step {
                    SteerStep::Retry(turn_id) => NativeDispatch::Steer {
                        turn_id,
                        retried: true,
                        message: turn.message(),
                    },
                    SteerStep::StartTurn => NativeDispatch::Start {
                        turn: turn.new_turn(&self.turn_config),
                    },
                    SteerStep::NotSteerable(_) | SteerStep::TurnMismatch => NativeDispatch::Ended(
                        SubmissionDispatchOutcome::NotApplied(ErrorCode::SubmissionUnavailable),
                    ),
                    SteerStep::Failed(failure) => NativeDispatch::Ended(
                        submission_typed_error_outcome(&failure),
                    ),
                }
            },
            (NativeDispatch::Start { .. }, TurnReply::Taken { turn_id }) => {
                let shown: bool = names_thread(&self.active_thread_id, thread_id) && names_thread(
                    &self.chat_widget.thread_id,
                    thread_id,
                );
                NativeDispatch::Taken { turn_id, record_safety_buffering: shown }
            },
            (NativeDispatch::Start { .. }, TurnReply::StartFailed(failure)) => {
                NativeDispatch::Ended(
                    match failure {
                        Some(failure) => submission_typed_error_outcome(&failure),
                        None => SubmissionDispatchOutcome::Unknown,
                    },
                )
            },
            (dispatch, _) => dispatch,
        }
    }
}

/// An operation on a thread.
pub enum ThreadOp {
    Interrupt,
    UserTurn { turn: UserTurn },
    ListSkills { cwds: Vec<String>, force_reload: bool },
    Compact,
    SetThreadName { name: String },
    ThreadRollback { num_turns: u32 },
    /// The target is named by its canonical text.
    Review { target: String },
    CleanBackgroundTerminals,
    RunUserShellCommand { command: String },
    ReloadUserConfig,
    /// The settings, as the host encodes them.
    OverrideTurnContext { settings: String },
    /// The denied action, as the host encodes it.
    ApproveGuardianDeniedAction { event: String },
    Other,
}

/// A request of the app-server that carries an operation out.
pub enum OpCall {
    TurnInterrupt { turn_id: String, retried: bool },
    StartupInterrupt,
    TurnSteer { turn_id: String, retried: bool, message: TurnMessage },
    TurnStart { turn: NewTurn },
    SkillsList { cwds: Vec<String>, force_reload: bool },
    ThreadCompactStart,
    ThreadSetName { name: String },
    ThreadRollback { num_turns: u32 },
    ReviewStart { target: String },
    BackgroundTerminalsClean,
    ShellCommand { command: String },
    ReloadUserConfig,
    SyncOverrideTurnContext { settings: String },
    ApproveGuardianDeniedAction { event: String },
}

/// How the app-server answered a request.
pub enum OpReply {
    Done,
    Failed,
    /// The turn could not be interrupted; another one may be running.
    InterruptFailed { actual_turn_id: Option<String> },
    /// The message was taken into this turn.
    TurnTaken { turn_id: String },
    SteerFailed(SteerFailure),
    /// The review runs in this turn of this thread, where the name is that of a thread.
    ReviewStarted { review_thread_id: Option<String>, turn_id: String },
    /// The skills were listed, or why they could not be.
    SkillsListed { error: Option<String> },
}

/// How an operation ends.
pub enum OpEnd {
    /// It was carried out.
    Handled,
    /// The skills that are known are shown, or the error.
    SkillsListed { error: Option<String> },
    /// It is not one for the app-server.
    NotHandled,
    /// A turn was started; one in the shown thread is recorded for a safety retry.
    TurnStarted { turn_id: String, record_safety_buffering: bool },
    /// The message is queued, or the reason shown.
    SteerRejected(String),
    /// The rollback is followed up.
    RolledBack { num_turns: u32 },
    /// The rollback failed, which is undone locally, and the failure is passed on.
    RollbackFailed,
    /// The failure is passed on.
    Failed,
}

/// The request is answered by no more than that it was carried out.
pub open spec fn is_plain(call: OpCall) -> bool {
    match call {
        OpCall::TurnInterrupt { .. }
        | OpCall::StartupInterrupt
        | OpCall::ThreadCompactStart
        | OpCall::ThreadSetName { .. }
        | OpCall::BackgroundTerminalsClean
        | OpCall::ShellCommand { .. }
        | OpCall::ReloadUserConfig
        | OpCall::ApproveGuardianDeniedAction { .. } => true,
        _ => false,
    }
}

/// What the user is shown of an error, where there is one.
pub open spec fn is_shown_error(
    error: Option<String>,
    failure_message: Seq<char>,
    shown: Option<String>,
) -> bool {
    match error {
        Some(error) => shown matches Some(text) && text@ == failure_message + ": "@ + error@,
        None => shown is None,
    }
}

/// What is done next for an operation.
pub enum OpStep {
    Call(OpCall),
    End(OpEnd),
}

impl App {
    /// What an operation asks for first.
    pub open spec fn first_step(self, thread_id: Seq<char>, op: ThreadOp, step: OpStep) -> bool {
        match op {
            ThreadOp::Interrupt => match self.running_turn(thread_id) {
                Some(running) => step matches OpStep::Call(
                    OpCall::TurnInterrupt { turn_id, retried },
                ) && turn_id@ == running && !retried,
                None => step == OpStep::Call(OpCall::StartupInterrupt),
            },
            ThreadOp::UserTurn { turn } => match self.running_turn(thread_id) {
                Some(running) => {
                    &&& step matches OpStep::Call(
                        OpCall::TurnSteer { turn_id, retried, message },
                    )
                    &&& turn_id@ == running
                    &&& !retried
                    &&& carries(message, turn)
                },
                None => {
                    &&& step matches OpStep::Call(OpCall::TurnStart { turn: new_turn })
                    &&& starts(new_turn, turn, self.turn_config)
                },
            },
            ThreadOp::ListSkills { cwds, force_reload } => {
                &&& step matches OpStep::Call(
                    OpCall::SkillsList { cwds: listed, force_reload: forced },
                )
                &&& listed@ == cwds@
                &&& forced == force_reload
            },
            ThreadOp::Compact => step == OpStep::Call(OpCall::ThreadCompactStart),
            ThreadOp::SetThreadName { name } => step == OpStep::Call(
                OpCall::ThreadSetName { name },
            ),
            ThreadOp::ThreadRollback { num_turns } => step == OpStep::Call(
                OpCall::ThreadRollback { num_turns },
            ),
            ThreadOp::Review { target } => step == OpStep::Call(OpCall::ReviewStart { target }),
            ThreadOp::CleanBackgroundTerminals => step == OpStep::Call(
                OpCall::BackgroundTerminalsClean,
            ),
            ThreadOp::RunUserShellCommand { command } => step == OpStep::Call(
                OpCall::ShellCommand { command },
            ),
            ThreadOp::ReloadUserConfig => step == OpStep::Call(OpCall::ReloadUserConfig),
            ThreadOp::OverrideTurnContext { settings } => step == OpStep::Call(
                OpCall::SyncOverrideTurnContext { settings },
            ),
            ThreadOp::ApproveGuardianDeniedAction { event } => step == OpStep::Call(
                OpCall::ApproveGuardianDeniedAction { event },
            ),
            ThreadOp::Other => step == OpStep::End(OpEnd::NotHandled),
        }
    }

    /// What an operation asks for first.
    pub fn try_submit_active_thread_op_via_app_server(
        &self,
        thread_id: &str,
        op: &ThreadOp,
    ) -> (step: OpStep)
        ensures
            self.first_step(thread_id@, *op, step),
    {
        match op {
            ThreadOp::Interrupt => match self.active_turn_id_for_thread(thread_id) {
                Some(turn_id) => OpStep::Call(OpCall::TurnInterrupt { turn_id, retried: false }),
                None => OpStep::Call(OpCall::StartupInterrupt),
            },
            ThreadOp::UserTurn { turn } => match self.active_turn_id_for_thread(thread_id) {
                Some(turn_id) => OpStep::Call(
                    OpCall::TurnSteer { turn_id, retried: false, message: turn.message() },
                ),
                None => OpStep::Call(
                    OpCall::TurnStart { turn: turn.new_turn(&self.turn_config) },
                ),
            },
            ThreadOp::ListSkills { cwds, force_reload } => OpStep::Call(
                OpCall::SkillsList { cwds: copy_texts(cwds), force_reload: *force_reload },
            ),
            ThreadOp::Compact => OpStep::Call(OpCall::ThreadCompactStart),
            ThreadOp::SetThreadName { name } => OpStep::Call(
                OpCall::ThreadSetName { name: name.clone() },
            ),
            ThreadOp::ThreadRollback { num_turns } => OpStep::Call(
                OpCall::ThreadRollback { num_turns: *num_turns },
            ),
            ThreadOp::Review { target } => OpStep::Call(
                OpCall::ReviewStart { target: target.clone() },
            ),
            ThreadOp::CleanBackgroundTerminals => OpStep::Call(OpCall::BackgroundTerminalsClean),
            ThreadOp::RunUserShellCommand { command } => OpStep::Call(
                OpCall::ShellCommand { command: command.clone() },
            ),
            ThreadOp::ReloadUserConfig => OpStep::Call(OpCall::ReloadUserConfig),
            ThreadOp::OverrideTurnContext { settings } => OpStep::Call(
                OpCall::SyncOverrideTurnContext { settings: settings.clone() },
            ),
            ThreadOp::ApproveGuardianDeniedAction { event } => OpStep::Call(
                OpCall::ApproveGuardianDeniedAction { event: event.clone() },
            ),
            ThreadOp::Other => OpStep::End(OpEnd::NotHandled),
        }
    }

    /// `after` is `self` with the submission of a user turn registered as taken into `turn_id`;
    /// nothing changes where the turn carries none.
    pub open spec fn turn_registered(self, after: Self, op: ThreadOp, turn_id: String) -> bool {
        match submitted_turn(op) {
            Some(turn) => {
                let submission = turn.composer_submission->0;
                let id = submission.submission_id;
                let pending = crate::ledger::filed(after.pending(), id);
                &&& self.same_threads(after)
                &&& after.pending() == with_pending(self.pending(), id, pending)
                &&& pending.submission@ == submission@
                &&& pending.turn_id is Some
                &&& pending.turn_id->0@ == turn_id@
                &&& pending.external_commit is None
                &&& !pending.item_committed
                &&& after.transitions() == self.transitions().push(
                    TransitionView::Pending(submission@),
                )
            },
            None => after == self,
        }
    }

    fn register_turn(&mut self, op: &ThreadOp, turn_id: &String)
        requires
            old(self).well_formed(),
        ensures
            final(self).well_formed(),
            old(self).turn_registered(*final(self), *op, *turn_id),
    {
        let turn: &UserTurn = match op {
            ThreadOp::UserTurn { turn } => turn,
            _ => return,
        };
        if let Some(submission) = &turn.composer_submission {
            let ghost before = self.pending();
            let ghost id = submission.submission_id;
            let copy: NativeComposerSubmission = submission.copied();
            let ghost pending = PendingComposerSubmissionCommit {
                submission: copy,
                turn_id: Some(*turn_id),
                external_commit: None,
                item_committed: false,
            };
            self.register_pending_composer_submission(copy, turn_id.clone());
            proof {
                if crate::ledger::holds(before, id) {
                    crate::ledger::refiled_keeps_others(before, id, pending);
                } else {
                    crate::ledger::index_is(self.pending(), before.len() as int);
                }
            }
        }
    }

    /// What a failed steer makes of an operation. Whatever is sent next is the message of the same
    /// turn.
    pub open spec fn steered_step(self, op: ThreadOp, steered: SteerStep, step: OpStep) -> bool {
        match (steered, op) {
            (SteerStep::Retry(actual), ThreadOp::UserTurn { turn }) => {
                &&& step matches OpStep::Call(OpCall::TurnSteer { turn_id, retried, message })
                &&& turn_id == actual
                &&& retried
                &&& carries(message, turn)
            },
            (SteerStep::StartTurn, ThreadOp::UserTurn { turn }) => {
                &&& step matches OpStep::Call(OpCall::TurnStart { turn: new_turn })
                &&& starts(new_turn, turn, self.turn_config)
            },
            (SteerStep::NotSteerable(message), _) => step == OpStep::End(
                OpEnd::SteerRejected(message),
            ),
            _ => step == OpStep::End(OpEnd::Failed),
        }
    }

    fn after_steered(&self, op: &ThreadOp, steered: SteerStep) -> (step: OpStep)
        ensures
            self.steered_step(*op, steered, step),
    {
        match (steered, op) {
            (SteerStep::Retry(turn_id), ThreadOp::UserTurn { turn }) => OpStep::Call(
                OpCall::TurnSteer { turn_id, retried: true, message: turn.message() },
            ),
            (SteerStep::StartTurn, ThreadOp::UserTurn { turn }) => OpStep::Call(
                OpCall::TurnStart { turn: turn.new_turn(&self.turn_config) },
            ),
            (SteerStep::NotSteerable(message), _) => OpStep::End(OpEnd::SteerRejected(message)),
            _ => OpStep::End(OpEnd::Failed),
        }
    }

    /// What a reply makes of an operation.
    pub open spec fn op_step(
        self,
        after: Self,
        thread_id: Seq<char>,
        op: ThreadOp,
        call: OpCall,
        reply: OpReply,
        step: OpStep,
    ) -> bool {
        match (call, reply) {
            (
                OpCall::TurnInterrupt { turn_id, retried },
                OpReply::InterruptFailed { actual_turn_id },
            ) => {
                &&& after == self
                &&& match actual_turn_id {
                    Some(actual) if !retried && actual@ != turn_id@ => step == OpStep::Call(
                        OpCall::TurnInterrupt { turn_id: actual, retried: true },
                    ),
                    _ => step == OpStep::End(OpEnd::Failed),
                }
            },
            (OpCall::TurnSteer { .. }, OpReply::TurnTaken { turn_id }) => {
                &&& step == OpStep::End(OpEnd::Handled)
                &&& self.turn_registered(after, op, turn_id)
            },
            (OpCall::TurnSteer { turn_id, retried, .. }, OpReply::SteerFailed(failure)) => {
                exists|steered: SteerStep|
                    {
                        &&& #[trigger] self.steer_step(
                            after,
                            thread_id,
                            turn_id@,
                            retried,
                            failure,
                            steered,
                        )
                        &&& self.steered_step(op, steered, step)
                    }
            },
            (OpCall::TurnStart { .. }, OpReply::TurnTaken { turn_id }) => {
                &&& step == OpStep::End(
                    OpEnd::TurnStarted {
                        turn_id,
                        record_safety_buffering: self.shows(thread_id),
                    },
                )
                &&& self.turn_registered(after, op, turn_id)
            },
            (OpCall::ThreadRollback { num_turns }, OpReply::Done) => {
                &&& step == OpStep::End(OpEnd::RolledBack { num_turns })
                &&& after == self
            },
            (OpCall::ThreadRollback { .. }, _) => {
                &&& step == OpStep::End(OpEnd::RollbackFailed)
                &&& after == self
            },
            (OpCall::ReviewStart { .. }, OpReply::ReviewStarted { review_thread_id, turn_id }) => {
                match review_thread_id {
                    None => step == OpStep::End(OpEnd::Failed) && after == self,
                    Some(review) => {
                        &&& step == OpStep::End(OpEnd::Handled)
                        &&& after.running_turn(review@) == Some(turn_id@)
                        &&& exists|ensured: App|
                            #[trigger] self.channel_ensured(ensured, review@)
                                && ensured.turn_noted(after, review@, Some(turn_id))
                    },
                }
            },
            (OpCall::SkillsList { .. }, OpReply::SkillsListed { error }) => {
                &&& step matches OpStep::End(OpEnd::SkillsListed { error: shown })
                &&& is_shown_error(error, "failed to refresh skills"@, shown)
                &&& after == self
            },
            (OpCall::SkillsList { .. }, _) | (OpCall::SyncOverrideTurnContext { .. }, _) => {
                &&& step == OpStep::End(OpEnd::Handled)
                &&& after == self
            },
            (call, OpReply::Done) if is_plain(call) => {
                &&& step == OpStep::End(OpEnd::Handled)
                &&& after == self
            },
            _ => step == OpStep::End(OpEnd::Failed) && after == self,
        }
    }

    /// Goes on with an operation. A list of skills that cannot be had is shown as an error, and
    /// settings are synchronised as far as they can be. A steer and an interrupt
    /// are tried once more at most, in the turn that the server says is running.
    pub fn advance_thread_op(
        &mut self,
        thread_id: &str,
        op: &ThreadOp,
        call: OpCall,
        reply: OpReply,
    ) -> (step: OpStep)
        requires
            old(self).well_formed(),
        ensures
            final(self).well_formed(),
            old(self).op_step(*final(self), thread_id@, *op, call, reply, step),
    {
        match (call, reply) {
            (
                OpCall::TurnInterrupt { turn_id, retried },
                OpReply::InterruptFailed { actual_turn_id },
            ) => match actual_turn_id {
                Some(actual) => {
                    if !retried && !same_text(actual.as_str(), turn_id.as_str()) {
                        OpStep::Call(OpCall::TurnInterrupt { turn_id: actual, retried: true })
                    } else {
                        OpStep::End(OpEnd::Failed)
                    }
                },
                None => OpStep::End(OpEnd::Failed),
            },
            (OpCall::TurnSteer { .. }, OpReply::TurnTaken { turn_id }) => {
                self.register_turn(op, &turn_id);
                OpStep::End(OpEnd::Handled)
            },
            (OpCall::TurnSteer { turn_id, retried, .. }, OpReply::SteerFailed(failure)) => {
                let steered: SteerStep = self.after_steer_failure(
                    thread_id,
                    turn_id.as_str(),
                    retried,
                    failure,
                );
                assert(old(self).steer_step(
                    *self,
                    thread_id@,
                    turn_id@,
                    retried,
                    failure,
                    steered,
                ));
                self.after_steered(op, steered)
            },
            (OpCall::TurnStart { .. }, OpReply::TurnTaken { turn_id }) => {
                let shown: bool = names_thread(&self.active_thread_id, thread_id) && names_thread(
                    &self.chat_widget.thread_id,
                    thread_id,
                );
                self.register_turn(op, &turn_id);
                OpStep::End(OpEnd::TurnStarted { turn_id, record_safety_buffering: shown })
            },
            (OpCall::ThreadRollback { num_turns }, OpReply::Done) => OpStep::End(
                OpEnd::RolledBack { num_turns },
            ),
            (OpCall::ThreadRollback { .. }, _) => OpStep::End(OpEnd::RollbackFailed),
            (OpCall::ReviewStart { .. }, OpReply::ReviewStarted { review_thread_id, turn_id }) => {
                match review_thread_id {
                    None => OpStep::End(OpEnd::Failed),
                    Some(review) => {
                        let _at: usize = self.ensure_thread_channel(review.as_str());
                        let ghost ensured = *self;
                        self.set_active_turn_id(review.as_str(), Some(turn_id));
                        proof {
                            let channels = self.thread_event_channels@;
                            channel_unmoved(ensured.thread_event_channels@, channels, review@, 0);
                            assert(old(self).channel_ensured(ensured, review@));
                            assert(ensured.turn_noted(*self, review@, Some(turn_id)));
                        }
                        OpStep::End(OpEnd::Handled)
                    },
                }
            },
            (OpCall::SkillsList { .. }, OpReply::SkillsListed { error }) => OpStep::End(
                OpEnd::SkillsListed {
                    error: self.handle_skills_list_result(&error, "failed to refresh skills"),
                },
            ),
            (OpCall::SkillsList { .. }, _) | (OpCall::SyncOverrideTurnContext { .. }, _) => {
                OpStep::End(OpEnd::Handled)
            },
            (OpCall::TurnInterrupt { .. }, OpReply::Done)
            | (OpCall::StartupInterrupt, OpReply::Done)
            | (OpCall::ThreadCompactStart, OpReply::Done)
            | (OpCall::ThreadSetName { .. }, OpReply::Done)
            | (OpCall::BackgroundTerminalsClean, OpReply::Done)
            | (OpCall::ShellCommand { .. }, OpReply::Done)
            | (OpCall::ReloadUserConfig, OpReply::Done)
            | (OpCall::ApproveGuardianDeniedAction { .. }, OpReply::Done) => OpStep::End(
                OpEnd::Handled,
            ),
            _ => OpStep::End(OpEnd::Failed),
        }
    }
}

impl App {
    /// Which permissions a new turn runs under: a selected profile first, then a local override
    /// that is in effect.
    pub fn turn_permissions_override_from_config(
        active_permission_profile: &Option<String>,
        effective_permission_profile: &String,
        runtime_permission_profile_override: &Option<String>,
    ) -> (permissions: TurnPermissionsOverride)
        ensures
            permissions == permissions_override(
                *active_permission_profile,
                *effective_permission_profile,
                *runtime_permission_profile_override,
            ),
    {
        if let Some(active) = active_permission_profile {
            return TurnPermissionsOverride::ActiveProfile(active.clone());
        }
        if let Some(local) = runtime_permission_profile_override {
            if same_text(local.as_str(), effective_permission_profile.as_str()) {
                return TurnPermissionsOverride::LegacySandbox(
                    effective_permission_profile.clone(),
                );
            }
        }
        TurnPermissionsOverride::Preserve
    }

    /// The error that a failed list of skills is shown as.
    pub fn handle_skills_list_result(&self, error: &Option<String>, failure_message: &str) -> (shown:
        Option<String>)
        ensures
            is_shown_error(*error, failure_message@, shown),
    {
        match error {
            Some(error) => Some(
                String::from_str(failure_message).concat(": ").concat(error.as_str()),
            ),
            None => None,
        }
    }

    /// The thread that an operation on the active thread goes to, or what the user is told.
    pub fn submit_active_thread_op(&self) -> (target: Result<String, String>)
        ensures
            match target {
                Ok(thread_id) => self.active_thread_id == Some(thread_id),
                Err(message) => self.active_thread_id is None && message@
                    == "No active thread is available."@,
            },
    {
        match &self.active_thread_id {
            Some(thread_id) => Ok(thread_id.clone()),
            None => Err(String::from_str("No active thread is available.")),
        }
    }
}

/// How the attempt to answer a request of the app-server with an operation ended.
pub enum ResolutionReply {
    /// The operation answers no request.
    NoRequest,
    Resolved,
    Failed(String),
}

/// What follows that attempt.
pub enum ResolutionStep {
    /// The operation is done; it is noted for the replay where it changes that.
    Handled { note: bool },
    /// The operation goes to the app-server, after the error is shown where there is one.
    Submit { error: Option<String> },
}

/// What the user is told where a request could not be answered.
pub open spec fn resolution_failure(thread_id: Seq<char>, error: Seq<char>) -> Seq<char> {
    "Failed to resolve app-server request for thread "@ + thread_id + ": "@ + error
}

/// What follows the attempt to answer a request of the app-server with an operation.
/// `changes_replay` says whether the operation can change what is replayed.
pub fn try_resolve_app_server_request(
    thread_id: &str,
    reply: ResolutionReply,
    changes_replay: bool,
) -> (step: ResolutionStep)
    ensures
        match reply {
            ResolutionReply::NoRequest => step == (ResolutionStep::Submit { error: None }),
            ResolutionReply::Resolved => step == (ResolutionStep::Handled {
                note: changes_replay,
            }),
            ResolutionReply::Failed(error) => {
                step matches ResolutionStep::Submit { error: Some(shown) } && shown@
                    == resolution_failure(thread_id@, error@)
            },
        },
{
    match reply {
        ResolutionReply::NoRequest => ResolutionStep::Submit { error: None },
        ResolutionReply::Resolved => ResolutionStep::Handled { note: changes_replay },
        ResolutionReply::Failed(error) => ResolutionStep::Submit {
            error: Some(
                String::from_str("Failed to resolve app-server request for thread ").concat(
                    thread_id,
                ).concat(": ").concat(error.as_str()),
            ),
        },
    }
}

/// What follows an operation that went to the app-server.
pub enum SubmitThreadOpStep {
    /// It is noted for the replay where it changes that.
    Done { note: bool },
    /// The user is told that it cannot be carried out.
    Unavailable(String),
}

/// What follows an operation that went to the app-server, which `handled` it or not.
pub fn submit_thread_op(thread_id: &str, handled: bool, changes_replay: bool) -> (step:
    SubmitThreadOpStep)
    ensures
        if handled {
            step == (SubmitThreadOpStep::Done { note: changes_replay })
        } else {
            step matches SubmitThreadOpStep::Unavailable(message) && message@
                == "Not available in TUI yet for thread "@ + thread_id@ + "."@
        },
{
    if handled {
        SubmitThreadOpStep::Done { note: changes_replay }
    } else {
        SubmitThreadOpStep::Unavailable(
            String::from_str("Not available in TUI yet for thread ").concat(thread_id).concat("."),
        )
    }
}

} // verus!
