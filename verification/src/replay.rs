//! What the shown thread's events do, and how a stored thread is shown again.
use crate::fence::FenceTable;
use crate::ids::Uuid;
use crate::routing::{
    channel_index, is_thread, names_thread, same_thread, App, ServerNotification, Thread,
    ThreadBufferedEvent, ThreadEventChannel, ThreadId, ThreadSessionState, Turn,
};
use crate::text::{finds_text, lists_text};
use vstd::prelude::*;
use vstd::string::*;

verus! {

/// What an event of the shown thread does.
#[derive(Clone, Copy, Debug, PartialEq, Eq, Structural)]
pub enum EventHandling {
    /// The receivers that it names are cached, and the widget takes it.
    Notification,
    /// The widget takes it.
    Request,
    /// The request was answered meanwhile.
    StaleRequest,
    HistoryEntry,
    Feedback,
}

/// The status line depends on the event.
pub open spec fn refreshes_status(event: ThreadBufferedEvent) -> bool {
    event matches ThreadBufferedEvent::Notification(notification) && (
    notification is TurnStarted || notification is ThreadTokenUsageUpdated)
}

impl App {
    /// What an event of the shown thread does.
    pub open spec fn handling(self, event: ThreadBufferedEvent) -> EventHandling {
        match event {
            ThreadBufferedEvent::Notification(_) => EventHandling::Notification,
            ThreadBufferedEvent::Request { request_id } => if lists_text(
                self.pending_app_server_requests@,
                request_id@,
            ) {
                EventHandling::Request
            } else {
                EventHandling::StaleRequest
            },
            ThreadBufferedEvent::HistoryEntryResponse { .. } => EventHandling::HistoryEntry,
            ThreadBufferedEvent::FeedbackSubmission => EventHandling::Feedback,
        }
    }

    /// What an event of the shown thread does, and whether the status line is refreshed.
    pub fn handle_thread_event_now(&self, event: &ThreadBufferedEvent) -> (handled: (
        EventHandling,
        bool,
    ))
        ensures
            handled.0 == self.handling(*event),
            handled.1 == refreshes_status(*event),
    {
        let needs_refresh: bool = matches!(
            event,
            ThreadBufferedEvent::Notification(ServerNotification::TurnStarted)
                | ThreadBufferedEvent::Notification(ServerNotification::ThreadTokenUsageUpdated)
        );
        let handling: EventHandling = match event {
            ThreadBufferedEvent::Notification(_) => EventHandling::Notification,
            ThreadBufferedEvent::Request { request_id } => if finds_text(
                &self.pending_app_server_requests,
                request_id.as_str(),
            ) {
                EventHandling::Request
            } else {
                EventHandling::StaleRequest
            },
            ThreadBufferedEvent::HistoryEntryResponse { .. } => EventHandling::HistoryEntry,
            ThreadBufferedEvent::FeedbackSubmission => EventHandling::Feedback,
        };
        (handling, needs_refresh)
    }

    /// What an event does that is replayed: a request is shown whether or not it still waits.
    pub fn handle_thread_event_replay(event: &ThreadBufferedEvent) -> (handling: EventHandling)
        ensures
            handling == match *event {
                ThreadBufferedEvent::Notification(_) => EventHandling::Notification,
                ThreadBufferedEvent::Request { .. } => EventHandling::Request,
                ThreadBufferedEvent::HistoryEntryResponse { .. } => EventHandling::HistoryEntry,
                ThreadBufferedEvent::FeedbackSubmission => EventHandling::Feedback,
            },
    {
        match event {
            ThreadBufferedEvent::Notification(_) => EventHandling::Notification,
            ThreadBufferedEvent::Request { .. } => EventHandling::Request,
            ThreadBufferedEvent::HistoryEntryResponse { .. } => EventHandling::HistoryEntry,
            ThreadBufferedEvent::FeedbackSubmission => EventHandling::Feedback,
        }
    }
}

/// What an event of the active thread asks for.
pub enum ActiveEventStep {
    /// The active thread died: the primary thread is selected in its place. The closed thread may
    /// be one of a side conversation, which is then discarded.
    FailOver { closed: ThreadId, primary: ThreadId, is_side: bool },
    Handle { handling: EventHandling, refresh_status: bool },
}

/// What the user is told after the primary thread was selected.
pub enum FailOverNotice {
    Info(String),
    Error(String),
}

/// The thread's death was made up for.
pub open spec fn switched_back(closed: Seq<char>) -> Seq<char> {
    "Agent thread "@ + closed + " closed. Switched back to main thread."@
}

/// The thread's death was not made up for.
pub open spec fn failed_to_switch_back(closed: Seq<char>, primary: Seq<char>) -> Seq<char> {
    "Agent thread "@ + closed + " closed. Failed to switch back to main thread "@ + primary + "."@
}

impl App {
    /// The active thread closed without being asked to, and is not the primary one.
    pub open spec fn fails_over(self, event: ThreadBufferedEvent) -> bool {
        &&& event matches ThreadBufferedEvent::Notification(notification)
        &&& notification is ThreadClosed
        &&& self.active_thread_id is Some
        &&& self.primary_thread_id is Some
        &&& !is_thread(self.pending_shutdown_exit_thread_id, self.active_thread_id->0@)
        &&& self.active_thread_id->0@ != self.primary_thread_id->0@
    }

    /// The event completes the shutdown that the user asked for.
    pub open spec fn completes_exit(self, event: ThreadBufferedEvent) -> bool {
        &&& event matches ThreadBufferedEvent::Notification(notification)
        &&& notification is ThreadClosed
        &&& same_thread(
            self.pending_shutdown_exit_thread_id,
            self.active_thread_id,
        )
    }

    /// Takes an event of the active thread: an unexpected death of a thread other than the
    /// primary one fails over to that; else a shutdown that was asked for is complete, and the
    /// event is handled as any other.
    pub fn handle_active_thread_event(&mut self, event: &ThreadBufferedEvent) -> (step:
        ActiveEventStep)
        ensures
            if old(self).fails_over(*event) {
                &&& *final(self) == *old(self)
                &&& step == (ActiveEventStep::FailOver {
                    closed: old(self).active_thread_id->0,
                    primary: old(self).primary_thread_id->0,
                    is_side: lists_text(
                        old(self).side_threads@,
                        old(self).active_thread_id->0@,
                    ),
                })
            } else {
                &&& *final(self) == (App {
                    pending_shutdown_exit_thread_id: if old(self).completes_exit(*event) {
                        None
                    } else {
                        old(self).pending_shutdown_exit_thread_id
                    },
                    ..*old(self)
                })
                &&& step == (ActiveEventStep::Handle {
                    handling: old(self).handling(*event),
                    refresh_status: refreshes_status(*event),
                })
            },
    {
        if let ThreadBufferedEvent::Notification(notification) = event {
            let exit_completed: bool = self.is_pending_shutdown_exit(notification);
            if let Some((closed, primary)) = self.active_non_primary_shutdown_target(
                notification,
            ) {
                let is_side: bool = finds_text(&self.side_threads, closed.as_str());
                return ActiveEventStep::FailOver { closed, primary, is_side };
            }
            if exit_completed {
                self.pending_shutdown_exit_thread_id = None;
            }
        }
        let (handling, refresh_status) = self.handle_thread_event_now(event);
        ActiveEventStep::Handle { handling, refresh_status }
    }

    /// Ends a fail-over, once it was tried to select the primary thread: where that is not shown,
    /// no thread is.
    pub fn finish_fail_over(&mut self, closed: &str, primary: &str) -> (notice: FailOverNotice)
        ensures
            if is_thread(old(self).active_thread_id, primary@) {
                &&& *final(self) == *old(self)
                &&& notice matches FailOverNotice::Info(text) && text@ == switched_back(closed@)
            } else {
                &&& old(self).deactivated(*final(self))
                &&& notice matches FailOverNotice::Error(text) && text@ == failed_to_switch_back(
                    closed@,
                    primary@,
                )
            },
    {
        if names_thread(&self.active_thread_id, primary) {
            return FailOverNotice::Info(
                String::from_str("Agent thread ").concat(closed).concat(
                    " closed. Switched back to main thread.",
                ),
            );
        }
        self.clear_active_thread();
        FailOverNotice::Error(
            String::from_str("Agent thread ").concat(closed).concat(
                " closed. Failed to switch back to main thread ",
            ).concat(primary).concat("."),
        )
    }

    /// `after` is `self` with no thread shown.
    pub open spec fn deactivated(self, after: Self) -> bool {
        &&& after == (App {
            thread_event_channels: after.thread_event_channels,
            active_thread_id: None,
            active_receiver_held: false,
            ..self
        })
        &&& match self.active_thread_id {
            Some(active) if self.has_channel(active@) => {
                after.thread_event_channels@ == self.thread_event_channels@.update(
                    channel_index(self.thread_event_channels@, active@, 0) as int,
                    ThreadEventChannel { active: false, ..self.channel(active@) },
                )
            },
            _ => after.thread_event_channels@ == self.thread_event_channels@,
        }
    }

    /// Ends the draining of the shown thread's events: where its sender is gone, no thread is
    /// shown any more.
    pub fn drain_active_thread_events(&mut self, disconnected: bool)
        ensures
            if old(self).active_receiver_held && disconnected {
                old(self).deactivated(*final(self))
            } else {
                *final(self) == *old(self)
            },
    {
        if self.active_receiver_held && disconnected {
            self.clear_active_thread();
        }
    }
}

/// Why a thread was rolled back.
#[derive(Clone, Copy, Debug, PartialEq, Eq, Structural)]
pub enum ThreadRollbackOrigin {
    Backtrack,
    SafetyBufferingRetry,
}

/// What follows a rollback.
#[derive(Clone, Copy, Debug, PartialEq, Eq, Structural)]
pub enum RollbackStep {
    BacktrackSucceeded { num_turns: u32 },
    ApplyNonPending { num_turns: u32 },
}

impl App {
    /// `after` is `self` once the waiting events of a thread that was rolled back are dropped:
    /// where the sender of the shown thread's events is gone, no thread is shown any more.
    pub open spec fn rollback_drained(
        self,
        after: Self,
        thread_id: Seq<char>,
        disconnected: bool,
    ) -> bool {
        if is_thread(self.active_thread_id, thread_id) && self.active_receiver_held
            && disconnected {
            self.deactivated(after)
        } else {
            after == self
        }
    }

    /// Follows a rollback of a thread, of which `thread` is left, once its pending submissions are
    /// settled and its waiting events are dropped. Returned is what follows.
    pub fn handle_thread_rollback_response_with_origin(
        &mut self,
        thread_id: &str,
        num_turns: u32,
        thread: &Thread,
        origin: ThreadRollbackOrigin,
        disconnected: bool,
    ) -> (step: RollbackStep)
        requires
            old(self).well_formed(),
        ensures
            final(self).well_formed(),
            step == match origin {
                ThreadRollbackOrigin::Backtrack => RollbackStep::BacktrackSucceeded { num_turns },
                ThreadRollbackOrigin::SafetyBufferingRetry => RollbackStep::ApplyNonPending {
                    num_turns,
                },
            },
            exists|noted: App|
                #[trigger] old(self).rollback_noted(noted, thread_id@, *thread)
                    && noted.rollback_drained(*final(self), thread_id@, disconnected),
    {
        self.note_thread_rollback(thread_id, thread);
        let ghost noted = *self;
        if names_thread(&self.active_thread_id, thread_id) {
            self.drain_active_thread_events(disconnected);
        }
        proof {
            assert(old(self).rollback_noted(noted, thread_id@, *thread));
            assert(noted.rollback_drained(*self, thread_id@, disconnected));
        }
        match origin {
            ThreadRollbackOrigin::Backtrack => RollbackStep::BacktrackSucceeded { num_turns },
            ThreadRollbackOrigin::SafetyBufferingRetry => RollbackStep::ApplyNonPending {
                num_turns,
            },
        }
    }

    /// Follows a rollback that goes back in the conversation.
    pub fn handle_thread_rollback_response(
        &mut self,
        thread_id: &str,
        num_turns: u32,
        thread: &Thread,
        disconnected: bool,
    ) -> (step: RollbackStep)
        requires
            old(self).well_formed(),
        ensures
            final(self).well_formed(),
            step == (RollbackStep::BacktrackSucceeded { num_turns }),
            exists|noted: App|
                #[trigger] old(self).rollback_noted(noted, thread_id@, *thread)
                    && noted.rollback_drained(*final(self), thread_id@, disconnected),
    {
        self.handle_thread_rollback_response_with_origin(
            thread_id,
            num_turns,
            thread,
            ThreadRollbackOrigin::Backtrack,
            disconnected,
        )
    }

    /// Leaves the thread that the widget shows: a rollback that was asked for is forgotten, and
    /// the thread's listener is stopped. Returned is the thread to unsubscribe from, and whether
    /// there was a listener.
    pub fn shutdown_current_thread(&mut self) -> (left: Option<(ThreadId, bool)>)
        ensures
            match (old(self).chat_widget.thread_id, left) {
                (Some(thread_id), Some((name, aborted))) => {
                    &&& name == thread_id
                    &&& aborted == lists_text(
                        old(self).thread_event_listener_tasks@,
                        thread_id@,
                    )
                    &&& *final(self) == (App {
                        rollback_pending: false,
                        thread_event_listener_tasks: final(self).thread_event_listener_tasks,
                        ..*old(self)
                    })
                    &&& aborted ==> exists|i: int|
                        0 <= i < old(self).thread_event_listener_tasks@.len() && (
                        #[trigger] old(self).thread_event_listener_tasks@[i])@ == thread_id@
                            && final(self).thread_event_listener_tasks@
                            == old(self).thread_event_listener_tasks@.remove(i)
                    &&& !aborted ==> final(self).thread_event_listener_tasks@
                        == old(self).thread_event_listener_tasks@
                },
                (None, None) => *final(self) == *old(self),
                _ => false,
            },
    {
        let thread_id: String = match &self.chat_widget.thread_id {
            Some(thread_id) => thread_id.clone(),
            None => return None,
        };
        self.rollback_pending = false;
        let aborted: bool = self.abort_thread_event_listener(thread_id.as_str());
        Some((thread_id, aborted))
    }
}

/// An event of a stored thread, by what the host finds it again with.
#[derive(Clone, Copy, Debug, PartialEq, Eq, Structural)]
pub struct SnapshotEvent {
    pub handle: u64,
    /// The event says something that a refreshed session does not.
    pub survives_session_refresh: bool,
    /// The event only informs.
    pub is_notice: bool,
}

/// A stored thread, as it is shown again.
pub struct ThreadEventSnapshot {
    pub session: Option<ThreadSessionState>,
    pub turns: Vec<Turn>,
    pub events: Vec<SnapshotEvent>,
    /// A request in it waits for the user.
    pub has_pending_interactive_request: bool,
}

/// A step of showing a stored thread again.
#[derive(Clone, Copy, Debug, PartialEq, Eq, Structural)]
pub enum ReplayStep {
    RefreshMcpStartupExpectedServers,
    BeginBuffer,
    SetPlanModeReasoningEffort,
    HandleSideSession,
    HandleSessionQuietly,
    HandleSession,
    SuppressQueueAutosend(bool),
    RestoreInputState,
    ResolveNotifiedSubmissions,
    ReplayTurns,
    ReplayEvent(u64),
    EndBuffer,
    SuppressInitialMessage(bool),
    SubmitInitialMessage,
    SendNextQueuedInput,
    RefreshStatusLine,
}

/// The step, where it is taken.
pub open spec fn step_if(taken: bool, step: ReplayStep) -> Seq<ReplayStep> {
    if taken {
        seq![step]
    } else {
        Seq::empty()
    }
}

/// The replay of the first events: notices are left out where a request waits for the user.
pub open spec fn event_steps(events: Seq<SnapshotEvent>, quiet: bool, count: nat) -> Seq<ReplayStep>
    decreases count,
{
    if count == 0 {
        Seq::empty()
    } else {
        let event = events[count - 1];
        event_steps(events, quiet, (count - 1) as nat) + step_if(
            !(quiet && event.is_notice),
            ReplayStep::ReplayEvent(event.handle),
        )
    }
}

/// How the session of a stored thread is taken up.
pub open spec fn session_steps(app: App, snapshot: ThreadEventSnapshot) -> Seq<ReplayStep> {
    match snapshot.session {
        None => Seq::empty(),
        Some(session) => step_if(!session.ultra_effort, ReplayStep::SetPlanModeReasoningEffort)
            + seq![
            if lists_text(app.side_threads@, session.thread_id@) {
                ReplayStep::HandleSideSession
            } else if snapshot.has_pending_interactive_request {
                ReplayStep::HandleSessionQuietly
            } else {
                ReplayStep::HandleSession
            },
        ],
    }
}

/// What comes before the events when a stored thread is shown again: queued input is held back.
pub open spec fn replay_opening(app: App, snapshot: ThreadEventSnapshot, buffers: bool) -> Seq<
    ReplayStep,
> {
    seq![ReplayStep::RefreshMcpStartupExpectedServers] + step_if(buffers, ReplayStep::BeginBuffer)
        + session_steps(app, snapshot) + seq![
        ReplayStep::SuppressQueueAutosend(true),
        ReplayStep::RestoreInputState,
        ReplayStep::ResolveNotifiedSubmissions,
    ] + step_if(snapshot.turns@.len() > 0, ReplayStep::ReplayTurns)
}

/// What comes after the events: only now may queued input and the first message be sent.
pub open spec fn replay_closing(buffers: bool, resume: bool) -> Seq<ReplayStep> {
    step_if(buffers, ReplayStep::EndBuffer) + seq![
        ReplayStep::SuppressQueueAutosend(false),
        ReplayStep::SuppressInitialMessage(false),
        ReplayStep::SubmitInitialMessage,
    ] + step_if(resume, ReplayStep::SendNextQueuedInput) + seq![ReplayStep::RefreshStatusLine]
}

/// How a stored thread is shown again.
pub open spec fn replay_steps(app: App, snapshot: ThreadEventSnapshot, resume: bool) -> Seq<
    ReplayStep,
> {
    let buffers = snapshot.turns@.len() > 0 || snapshot.events@.len() > 0;
    replay_opening(app, snapshot, buffers) + event_steps(
        snapshot.events@,
        snapshot.has_pending_interactive_request,
        snapshot.events@.len(),
    ) + replay_closing(buffers, resume)
}

fn close_replay(buffers: bool, resume: bool) -> (steps: Vec<ReplayStep>)
    ensures
        steps@ == replay_closing(buffers, resume),
{
    let mut steps: Vec<ReplayStep> = Vec::new();
    if buffers {
        steps.push(ReplayStep::EndBuffer);
    }
    steps.push(ReplayStep::SuppressQueueAutosend(false));
    steps.push(ReplayStep::SuppressInitialMessage(false));
    steps.push(ReplayStep::SubmitInitialMessage);
    if resume {
        steps.push(ReplayStep::SendNextQueuedInput);
    }
    steps.push(ReplayStep::RefreshStatusLine);
    assert(steps@ =~= replay_closing(buffers, resume));
    steps
}

impl App {
    fn take_session_up(&self, snapshot: &ThreadEventSnapshot) -> (steps: Vec<ReplayStep>)
        ensures
            steps@ == session_steps(*self, *snapshot),
    {
        let mut steps: Vec<ReplayStep> = Vec::new();
        if let Some(session) = &snapshot.session {
            if !session.ultra_effort {
                steps.push(ReplayStep::SetPlanModeReasoningEffort);
            }
            if finds_text(&self.side_threads, session.thread_id.as_str()) {
                steps.push(ReplayStep::HandleSideSession);
            } else if snapshot.has_pending_interactive_request {
                steps.push(ReplayStep::HandleSessionQuietly);
            } else {
                steps.push(ReplayStep::HandleSession);
            }
        }
        assert(steps@ =~= session_steps(*self, *snapshot));
        steps
    }

    fn open_replay(&self, snapshot: &ThreadEventSnapshot, buffers: bool) -> (steps: Vec<ReplayStep>)
        ensures
            steps@ == replay_opening(*self, *snapshot, buffers),
    {
        let mut steps: Vec<ReplayStep> = Vec::new();
        steps.push(ReplayStep::RefreshMcpStartupExpectedServers);
        if buffers {
            steps.push(ReplayStep::BeginBuffer);
        }
        let mut session: Vec<ReplayStep> = self.take_session_up(snapshot);
        steps.append(&mut session);
        steps.push(ReplayStep::SuppressQueueAutosend(true));
        steps.push(ReplayStep::RestoreInputState);
        steps.push(ReplayStep::ResolveNotifiedSubmissions);
        if snapshot.turns.len() > 0 {
            steps.push(ReplayStep::ReplayTurns);
        }
        assert(steps@ =~= replay_opening(*self, *snapshot, buffers));
        steps
    }

    /// How a stored thread is shown again.
    pub fn replay_thread_snapshot(
        &self,
        snapshot: &ThreadEventSnapshot,
        resume_restored_queue: bool,
    ) -> (steps: Vec<ReplayStep>)
        ensures
            steps@ == replay_steps(*self, *snapshot, resume_restored_queue),
    {
        let buffers: bool = snapshot.turns.len() > 0 || snapshot.events.len() > 0;
        let quiet: bool = snapshot.has_pending_interactive_request;
        let mut steps: Vec<ReplayStep> = self.open_replay(snapshot, buffers);
        let ghost opened = steps@;
        let mut i: usize = 0;
        while i < snapshot.events.len()
            invariant
                i <= snapshot.events@.len(),
                steps@ =~= opened + event_steps(snapshot.events@, quiet, i as nat),
            decreases snapshot.events@.len() - i,
        {
            let event: SnapshotEvent = snapshot.events[i];
            if !(quiet && event.is_notice) {
                steps.push(ReplayStep::ReplayEvent(event.handle));
            }
            i += 1;
        }
        let mut closing: Vec<ReplayStep> = close_replay(buffers, resume_restored_queue);
        steps.append(&mut closing);
        steps
    }
}

/// How the primary session is taken up, around the events that waited for it: the first message
/// is held back until they are taken.
pub open spec fn initial_replay(has_turns: bool, waited: nat) -> Seq<ReplayStep> {
    seq![ReplayStep::SuppressInitialMessage(true), ReplayStep::HandleSession] + step_if(
        has_turns,
        ReplayStep::BeginBuffer,
    ) + seq![ReplayStep::ReplayTurns] + step_if(has_turns, ReplayStep::EndBuffer) + Seq::new(
        waited,
        |i: int| ReplayStep::ReplayEvent(i as u64),
    ) + seq![ReplayStep::SuppressInitialMessage(false), ReplayStep::SubmitInitialMessage]
}

/// How the primary session is taken up. Events that waited for it are named by their places.
pub fn initial_replay_steps(has_turns: bool, waited: usize) -> (steps: Vec<ReplayStep>)
    ensures
        steps@ == initial_replay(has_turns, waited as nat),
{
    let mut steps: Vec<ReplayStep> = Vec::new();
    steps.push(ReplayStep::SuppressInitialMessage(true));
    steps.push(ReplayStep::HandleSession);
    if has_turns {
        steps.push(ReplayStep::BeginBuffer);
    }
    steps.push(ReplayStep::ReplayTurns);
    if has_turns {
        steps.push(ReplayStep::EndBuffer);
    }
    let ghost replayed = steps@;
    let mut i: usize = 0;
    while i < waited
        invariant
            i <= waited,
            steps@ =~= replayed + Seq::new(i as nat, |i: int| ReplayStep::ReplayEvent(i as u64)),
        decreases waited - i,
    {
        steps.push(ReplayStep::ReplayEvent(i as u64));
        i += 1;
    }
    steps.push(ReplayStep::SuppressInitialMessage(false));
    steps.push(ReplayStep::SubmitInitialMessage);
    assert(steps@ =~= initial_replay(has_turns, waited as nat));
    steps
}

/// The events that a refreshed session leaves of a stored thread.
pub open spec fn surviving_events(events: Seq<SnapshotEvent>, count: nat) -> Seq<SnapshotEvent>
    decreases count,
{
    if count == 0 {
        Seq::empty()
    } else {
        let before = surviving_events(events, (count - 1) as nat);
        if events[count - 1].survives_session_refresh {
            before.push(events[count - 1])
        } else {
            before
        }
    }
}

impl App {
    /// Takes a refreshed session up: it replaces the session and the turns of the stored thread,
    /// of whose events only those stay that say something more, and the session of the thread's
    /// channel.
    pub fn apply_refreshed_snapshot_thread(
        &mut self,
        thread_id: &str,
        session: ThreadSessionState,
        turns: Vec<Turn>,
        snapshot: &mut ThreadEventSnapshot,
    )
        ensures
            final(snapshot).session == Some(session),
            final(snapshot).turns == turns,
            final(snapshot).events@ == surviving_events(
                old(snapshot).events@,
                old(snapshot).events@.len(),
            ),
            final(snapshot).has_pending_interactive_request
                == old(snapshot).has_pending_interactive_request,
            if old(self).has_channel(thread_id@) {
                old(self).rechannelled(
                    *final(self),
                    thread_id@,
                    ThreadEventChannel {
                        session: Some(session),
                        ..old(self).channel(thread_id@)
                    },
                )
            } else {
                *final(self) == *old(self)
            },
    {
        let at: usize = self.channel_position(thread_id);
        if at < self.thread_event_channels.len() {
            let ghost before = self.thread_event_channels@;
            self.thread_event_channels[at].session = Some(session.copied());
            assert(self.thread_event_channels@ =~= before.update(
                at as int,
                ThreadEventChannel { session: Some(session), ..before[at as int] },
            ));
        }
        let mut events: Vec<SnapshotEvent> = Vec::new();
        let mut i: usize = 0;
        while i < snapshot.events.len()
            invariant
                i <= snapshot.events@.len(),
                events@ =~= surviving_events(snapshot.events@, i as nat),
            decreases snapshot.events@.len() - i,
        {
            let event: SnapshotEvent = snapshot.events[i];
            if event.survives_session_refresh {
                events.push(event);
            }
            i += 1;
        }
        snapshot.session = Some(session);
        snapshot.turns = turns;
        snapshot.events = events;
    }
}

} // verus!
