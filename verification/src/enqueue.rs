//! What comes from the app-server for a thread: whether it is kept, passed on, or waits for the
//! primary thread.
use crate::fence::FenceTable;
use crate::interactive::text_views;
use crate::pending::NotifiedOutcome;
use crate::routing::{
    channel_index, channel_unmoved, is_thread, names_thread, App, ServerNotification,
    SideParentStatus, StartedThread, ThreadBufferedEvent, ThreadEventChannel, ThreadId,
    ThreadSessionState,
};
use crate::text::{copy_option, same_text};
use vstd::prelude::*;
use vstd::string::*;

verus! {

impl ThreadSessionState {
    pub fn copied(&self) -> (copy: Self)
        ensures
            copy == *self,
    {
        ThreadSessionState {
            thread_id: self.thread_id.clone(),
            thread_name: copy_option(&self.thread_name),
            model_provider_id: self.model_provider_id.clone(),
            model: self.model.clone(),
            cwd: self.cwd.clone(),
            rollout_path: copy_option(&self.rollout_path),
            has_message_history: self.has_message_history,
            ultra_effort: self.ultra_effort,
        }
    }
}

/// The session that is inferred for a thread that has started is the primary thread's, with what
/// is known of the thread. `model` is the model that was recorded for it; where none was, but
/// the thread has a rollout, the model is unknown.
pub open spec fn is_inferred(
    session: ThreadSessionState,
    primary: ThreadSessionState,
    thread_id: Seq<char>,
    thread: StartedThread,
    model: Option<String>,
) -> bool {
    &&& session.thread_id@ == thread_id
    &&& session.thread_name == thread.name
    &&& session.model_provider_id == thread.model_provider
    &&& session.cwd == thread.cwd
    &&& match model {
        Some(model) => session.model == model,
        None => if thread.rollout_path is Some {
            session.model@ == ""@
        } else {
            session.model == primary.model
        },
    }
    &&& session.rollout_path == thread.rollout_path
    &&& !session.has_message_history
    &&& session.ultra_effort == primary.ultra_effort
}

impl App {
    /// The session that is inferred from a notification: one for a thread that has started, once
    /// the primary session is known.
    pub fn infer_session_for_thread_notification(
        &self,
        thread_id: &str,
        notification: &ServerNotification,
        model: &Option<String>,
    ) -> (session: Option<ThreadSessionState>)
        ensures
            match (*notification, self.primary_session_configured) {
                (ServerNotification::ThreadStarted { thread }, Some(primary)) => session is Some
                    && is_inferred(session->0, primary, thread_id@, thread, *model),
                _ => session is None,
            },
    {
        let thread: &StartedThread = match notification {
            ServerNotification::ThreadStarted { thread } => thread,
            _ => return None,
        };
        let primary: &ThreadSessionState = match &self.primary_session_configured {
            Some(primary) => primary,
            None => return None,
        };
        let mut session: ThreadSessionState = primary.copied();
        session.thread_id = String::from_str(thread_id);
        session.thread_name = copy_option(&thread.name);
        session.model_provider_id = thread.model_provider.clone();
        session.cwd = thread.cwd.clone();
        if let Some(model) = model {
            session.model = model.clone();
        } else if thread.rollout_path.is_some() {
            session.model = String::from_str("");
        }
        session.has_message_history = false;
        session.rollout_path = copy_option(&thread.rollout_path);
        Some(session)
    }

    /// The notification is of no concern: settings of a thread that is neither the primary one
    /// nor known.
    pub open spec fn is_foreign_settings(
        self,
        thread_id: Seq<char>,
        notification: ServerNotification,
    ) -> bool {
        notification is ThreadSettingsUpdated && self.primary_thread_id is Some && !is_thread(
            self.primary_thread_id,
            thread_id,
        ) && !self.has_channel(thread_id)
    }

    /// `after` is `self` with a channel of the thread, whose session is `session` where it had
    /// none.
    pub open spec fn session_ensured(
        self,
        after: Self,
        thread_id: Seq<char>,
        session: Option<ThreadSessionState>,
    ) -> bool {
        exists|ensured: App|
            {
                &&& #[trigger] self.channel_ensured(ensured, thread_id)
                &&& ensured.rechannelled(
                    after,
                    thread_id,
                    ThreadEventChannel {
                        session: match ensured.channel(thread_id).session {
                            Some(known) => Some(known),
                            None => session,
                        },
                        ..ensured.channel(thread_id)
                    },
                )
            }
    }

    fn ensure_session(&mut self, thread_id: &str, session: Option<ThreadSessionState>)
        ensures
            old(self).session_ensured(*final(self), thread_id@, session),
    {
        let at: usize = self.ensure_thread_channel(thread_id);
        let ghost ensured = *self;
        if self.thread_event_channels[at].session.is_none() {
            self.thread_event_channels[at].session = session;
        }
        assert(self.thread_event_channels@ =~= ensured.thread_event_channels@.update(
            at as int,
            ThreadEventChannel {
                session: match ensured.channel(thread_id@).session {
                    Some(known) => Some(known),
                    None => session,
                },
                ..ensured.channel(thread_id@)
            },
        ));
        assert(old(self).channel_ensured(ensured, thread_id@));
    }

    /// Takes a notification in: what it says of a submission is noted, and the thread gets a
    /// channel, with the session that was inferred where it had none. Nothing happens, and
    /// nothing is returned, where the notification is of no concern.
    pub fn enqueue_thread_notification(
        &mut self,
        thread_id: &str,
        notification: &ServerNotification,
        inferred_session: Option<ThreadSessionState>,
        fences: &FenceTable,
    ) -> (noted: Option<NotifiedOutcome>)
        requires
            old(self).well_formed(),
        ensures
            final(self).well_formed(),
            noted is None == old(self).is_foreign_settings(thread_id@, *notification),
            match noted {
                None => *final(self) == *old(self),
                Some(outcome) => exists|told: App|
                    {
                        &&& #[trigger] old(self).notification_step(
                            told,
                            *notification,
                            fences.fences@,
                            outcome,
                        )
                        &&& told.session_ensured(*final(self), thread_id@, inferred_session)
                    },
            },
    {
        if matches!(notification, ServerNotification::ThreadSettingsUpdated)
            && self.primary_thread_id.is_some() && !names_thread(
            &self.primary_thread_id,
            thread_id,
        ) {
            let at: usize = self.channel_position(thread_id);
            if at >= self.thread_event_channels.len() {
                return None;
            }
        }
        let outcome: NotifiedOutcome = self.note_composer_submission_notification(
            notification,
            fences,
        );
        let ghost told = *self;
        self.ensure_session(thread_id, inferred_session);
        assert(old(self).notification_step(told, *notification, fences.fences@, outcome));
        Some(outcome)
    }
}

/// What follows a notification or a request that was stored.
pub struct EnqueuedStep {
    /// It is passed on to the shown thread.
    pub send: bool,
    pub status: StatusStep,
}

/// What a side conversation is told of its parent.
pub enum StatusStep {
    Keep,
    Tell(SideParentStatus),
    /// What the notification itself says.
    Apply,
    /// That the parent waits for something is taken back.
    ClearAction,
}

impl App {
    /// What a thread's side conversation is told of what waits in it, where it has a channel.
    pub open spec fn pending_status(self, thread_id: Seq<char>) -> Option<SideParentStatus> {
        if self.has_channel(thread_id) {
            self.channel(thread_id).side_parent_pending_status
        } else {
            None
        }
    }

    /// The thread's events are passed on.
    pub open spec fn passes_on(self, thread_id: Seq<char>) -> bool {
        self.has_channel(thread_id) && self.channel(thread_id).active
    }

    fn pending_status_of(&self, thread_id: &str) -> (status: Option<SideParentStatus>)
        ensures
            status == self.pending_status(thread_id@),
    {
        let at: usize = self.channel_position(thread_id);
        if at < self.thread_event_channels.len() {
            copy_option(&self.thread_event_channels[at].side_parent_pending_status)
        } else {
            None
        }
    }

    fn passes_on_events_of(&self, thread_id: &str) -> (passes: bool)
        ensures
            passes == self.passes_on(thread_id@),
    {
        let at: usize = self.channel_position(thread_id);
        at < self.thread_event_channels.len() && self.thread_event_channels[at].active
    }

    /// What follows a notification once it is stored. What waits in the thread comes before what
    /// the notification says.
    pub fn finish_enqueued_notification(&self, thread_id: &str, changes_status: bool) -> (step:
        EnqueuedStep)
        ensures
            step.send == self.passes_on(thread_id@),
            step.status == match self.pending_status(thread_id@) {
                Some(status) => StatusStep::Tell(status),
                None => if changes_status {
                    StatusStep::Apply
                } else {
                    StatusStep::Keep
                },
            },
    {
        EnqueuedStep {
            send: self.passes_on_events_of(thread_id),
            status: match self.pending_status_of(thread_id) {
                Some(status) => StatusStep::Tell(status),
                None => if changes_status {
                    StatusStep::Apply
                } else {
                    StatusStep::Keep
                },
            },
        }
    }

    /// A request is looked at for the user before it is stored where its thread is not shown.
    pub fn is_inactive_request(&self, thread_id: &str) -> (inactive: bool)
        ensures
            inactive == !is_thread(self.active_thread_id, thread_id@),
    {
        !names_thread(&self.active_thread_id, thread_id)
    }

    /// What follows a request once it is stored: it is passed on, or put to the user where its
    /// thread is not shown and no side conversation is. `is_interactive` says whether the user
    /// has something to do with it, and `request_status` what it makes of the thread.
    pub fn enqueue_thread_request(
        &self,
        thread_id: &str,
        is_interactive: bool,
        request_status: Option<SideParentStatus>,
    ) -> (step: (EnqueuedStep, bool))
        ensures
            step.0.send == self.passes_on(thread_id@),
            step.0.status == match (self.pending_status(thread_id@), request_status) {
                (Some(status), _) => StatusStep::Tell(status),
                (None, Some(status)) => StatusStep::Tell(status),
                (None, None) => StatusStep::Keep,
            },
            step.1 == (!self.passes_on(thread_id@) && self.active_side_parent_thread_id is None
                && is_interactive && !is_thread(self.active_thread_id, thread_id@)),
    {
        let send: bool = self.passes_on_events_of(thread_id);
        let status: StatusStep = match self.pending_status_of(thread_id) {
            Some(status) => StatusStep::Tell(status),
            None => match request_status {
                Some(status) => StatusStep::Tell(status),
                None => StatusStep::Keep,
            },
        };
        let surface: bool = !send && self.active_side_parent_thread_id.is_none() && is_interactive
            && self.is_inactive_request(thread_id);
        (EnqueuedStep { send, status }, surface)
    }

    /// What a side conversation is told of its parent as the thread stands; nothing where the
    /// thread has no channel.
    pub fn refresh_side_parent_status_from_store(&self, thread_id: &str) -> (status: StatusStep)
        ensures
            status == if !self.has_channel(thread_id@) {
                StatusStep::Keep
            } else {
                match self.pending_status(thread_id@) {
                    Some(status) => StatusStep::Tell(status),
                    None => StatusStep::ClearAction,
                }
            },
    {
        let at: usize = self.channel_position(thread_id);
        if at >= self.thread_event_channels.len() {
            return StatusStep::Keep;
        }
        match self.pending_status_of(thread_id) {
            Some(status) => StatusStep::Tell(status),
            None => StatusStep::ClearAction,
        }
    }
}

/// The buffer with one more event: the oldest leaves where there are more than it keeps.
pub open spec fn buffered(
    buffer: Seq<ThreadBufferedEvent>,
    event: ThreadBufferedEvent,
    capacity: nat,
) -> Seq<ThreadBufferedEvent> {
    if buffer.len() + 1 > capacity {
        buffer.push(event).skip(1)
    } else {
        buffer.push(event)
    }
}

/// The request that leaves the buffer with one more event.
pub open spec fn evicted_request(
    buffer: Seq<ThreadBufferedEvent>,
    event: ThreadBufferedEvent,
    capacity: nat,
) -> Option<String> {
    match buffer.push(event)[0] {
        ThreadBufferedEvent::Request { request_id } if buffer.len() + 1 > capacity => Some(
            request_id,
        ),
        _ => None,
    }
}

impl App {
    /// Stores the answer to a look at the message history. Returned are whether it is passed on,
    /// and the request that left the buffer for it.
    pub fn enqueue_thread_history_entry_response(&mut self, thread_id: &str, log_id: u64, offset: u64)
        -> (step: (bool, Option<String>))
        ensures
            exists|ensured: App|
                {
                    let event = ThreadBufferedEvent::HistoryEntryResponse { log_id, offset };
                    let channel = ensured.channel(thread_id@);
                    let after = final(self).channel(thread_id@);
                    &&& #[trigger] old(self).channel_ensured(ensured, thread_id@)
                    &&& ensured.rechannelled(*final(self), thread_id@, after)
                    &&& after == (ThreadEventChannel { buffer: after.buffer, ..channel })
                    &&& after.buffer@ == buffered(channel.buffer@, event, channel.capacity as nat)
                    &&& step.0 == channel.active
                    &&& step.1 == evicted_request(
                        channel.buffer@,
                        event,
                        channel.capacity as nat,
                    )
                },
    {
        let at: usize = self.ensure_thread_channel(thread_id);
        let ghost ensured = *self;
        let ghost channel = ensured.channel(thread_id@);
        let ghost event = ThreadBufferedEvent::HistoryEntryResponse { log_id, offset };
        assert(old(self).channel_ensured(ensured, thread_id@));
        let capacity: usize = self.thread_event_channels[at].capacity;
        let active: bool = self.thread_event_channels[at].active;
        self.thread_event_channels[at].buffer.push(
            ThreadBufferedEvent::HistoryEntryResponse { log_id, offset },
        );
        let mut evicted: Option<String> = None;
        if self.thread_event_channels[at].buffer.len() > capacity {
            let removed: ThreadBufferedEvent = self.thread_event_channels[at].buffer.remove(0);
            if let ThreadBufferedEvent::Request { request_id } = removed {
                evicted = Some(request_id);
            }
        }
        proof {
            let after = self.thread_event_channels@[at as int];
            assert(after.buffer@ =~= buffered(channel.buffer@, event, channel.capacity as nat));
            assert(self.thread_event_channels@ =~= ensured.thread_event_channels@.update(
                at as int,
                after,
            ));
            channel_unmoved(
                ensured.thread_event_channels@,
                self.thread_event_channels@,
                thread_id@,
                0,
            );
        }
        (active, evicted)
    }

    /// What comes for the primary thread goes to it, or waits until it is known. Returned are the
    /// thread and the event that goes there.
    fn enqueue_primary(&mut self, event: ThreadBufferedEvent) -> (routed: Option<
        (ThreadId, ThreadBufferedEvent),
    >)
        ensures
            old(self).primary_step(*final(self), event, routed),
    {
        match &self.primary_thread_id {
            Some(thread_id) => Some((thread_id.clone(), event)),
            None => {
                self.pending_primary_events.push(event);
                None
            },
        }
    }

    /// What comes for the primary thread goes to it, or waits until it is known.
    pub open spec fn primary_step(
        self,
        after: Self,
        event: ThreadBufferedEvent,
        routed: Option<(ThreadId, ThreadBufferedEvent)>,
    ) -> bool {
        match self.primary_thread_id {
            Some(thread_id) => routed == Some((thread_id, event)) && after == self,
            None => {
                &&& routed is None
                &&& after.pending_primary_events@ == self.pending_primary_events@.push(event)
                &&& after == (App { pending_primary_events: after.pending_primary_events, ..self })
            },
        }
    }

    /// A notification for the primary thread.
    pub fn enqueue_primary_thread_notification(&mut self, notification: ServerNotification) -> (routed:
        Option<(ThreadId, ThreadBufferedEvent)>)
        ensures
            old(self).primary_step(
                *final(self),
                ThreadBufferedEvent::Notification(notification),
                routed,
            ),
    {
        self.enqueue_primary(ThreadBufferedEvent::Notification(notification))
    }

    /// A request for the primary thread.
    pub fn enqueue_primary_thread_request(&mut self, request_id: String) -> (routed: Option<
        (ThreadId, ThreadBufferedEvent),
    >)
        ensures
            old(self).primary_step(
                *final(self),
                (ThreadBufferedEvent::Request { request_id }),
                routed,
            ),
    {
        self.enqueue_primary(ThreadBufferedEvent::Request { request_id })
    }

    /// `after` is `self` with `session` as the primary one: its thread is the primary thread, has
    /// a channel with that session, and is shown where no thread was.
    pub open spec fn primary_session_step(self, after: Self, session: ThreadSessionState) -> bool {
        let name = session.thread_id@;
        let shows = self.active_thread_id is None;
        &&& after.primary_thread_id == Some(session.thread_id)
        &&& after.primary_session_configured == Some(session)
        &&& if shows {
            is_thread(after.active_thread_id, name)
        } else {
            after.active_thread_id == self.active_thread_id
        }
        &&& exists|ensured: App|
            {
                let channel = ThreadEventChannel {
                    session: Some(session),
                    ..ensured.channel(name)
                };
                &&& #[trigger] (App {
                    primary_thread_id: after.primary_thread_id,
                    primary_session_configured: after.primary_session_configured,
                    ..self
                }).channel_ensured(ensured, name)
                &&& after.thread_event_channels@ == ensured.thread_event_channels@.update(
                    channel_index(ensured.thread_event_channels@, name, 0) as int,
                    if shows {
                        ThreadEventChannel { active: true, receiver_parked: false, ..channel }
                    } else {
                        channel
                    },
                )
                &&& after.active_receiver_held == if shows {
                    channel.receiver_parked
                } else {
                    self.active_receiver_held
                }
            }
        &&& after.pending_primary_events@.len() == 0
        &&& after == (App {
            pending_primary_events: after.pending_primary_events,
            primary_thread_id: after.primary_thread_id,
            primary_session_configured: after.primary_session_configured,
            thread_event_channels: after.thread_event_channels,
            active_thread_id: after.active_thread_id,
            active_receiver_held: after.active_receiver_held,
            ..self
        })
    }

    /// Makes a session the primary one. Returned is what waited for it, in the order in which it
    /// came.
    pub fn enqueue_primary_thread_session(&mut self, session: ThreadSessionState) -> (waited: Vec<
        ThreadBufferedEvent,
    >)
        ensures
            waited@ == old(self).pending_primary_events@,
            old(self).primary_session_step(*final(self), session),
    {
        let ghost name = session.thread_id@;
        self.primary_thread_id = Some(session.thread_id.clone());
        self.primary_session_configured = Some(session.copied());
        let ghost primary = *self;
        let at: usize = self.ensure_thread_channel(session.thread_id.as_str());
        let ghost ensured = *self;
        assert(primary.channel_ensured(ensured, name));
        let thread_id: String = session.thread_id.clone();
        self.thread_event_channels[at].session = Some(session);
        let ghost configured = self.thread_event_channels@;
        proof {
            channel_unmoved(ensured.thread_event_channels@, configured, name, 0);
        }
        self.activate_thread_channel(thread_id.as_str());
        let mut waited: Vec<ThreadBufferedEvent> = Vec::new();
        waited.append(&mut self.pending_primary_events);
        assert(waited@ =~= old(self).pending_primary_events@);
        assert(primary == (App {
            primary_thread_id: self.primary_thread_id,
            primary_session_configured: self.primary_session_configured,
            ..*old(self)
        }));
        proof {
            let channel = ThreadEventChannel { session: Some(session), ..ensured.channel(name) };
            assert(configured =~= ensured.thread_event_channels@.update(at as int, channel));
            if old(self).active_thread_id is None {
                assert(self.thread_event_channels@ =~= ensured.thread_event_channels@.update(
                    at as int,
                    ThreadEventChannel { active: true, receiver_parked: false, ..channel },
                ));
            }
        }
        waited
    }
}

/// A thread that a notification of collaborating agents names as a receiver.
pub struct CollabReceiver {
    /// The thread, where the name is that of one.
    pub thread_id: Option<ThreadId>,
    /// The notification says that the receiver was not found.
    pub not_found: bool,
}

/// The receivers among the first that are new: found, named as a thread, and not in the picker.
pub open spec fn new_receivers(app: App, receivers: Seq<CollabReceiver>, count: nat) -> Seq<
    Seq<char>,
>
    decreases count,
{
    if count == 0 {
        Seq::empty()
    } else {
        let before = new_receivers(app, receivers, (count - 1) as nat);
        let receiver = receivers[count - 1];
        match receiver.thread_id {
            Some(thread_id) if !receiver.not_found && !app.picker_lists(thread_id@)
                && !before.contains(thread_id@) => before.push(thread_id@),
            _ => before,
        }
    }
}

impl App {
    /// The picker lists the thread.
    pub open spec fn picker_lists(self, thread_id: Seq<char>) -> bool {
        exists|i: int|
            0 <= i < self.agent_navigation@.len() && (
            #[trigger] self.agent_navigation@[i]).thread_id@ == thread_id
    }

    fn is_in_picker(&self, thread_id: &str) -> (listed: bool)
        ensures
            listed == self.picker_lists(thread_id@),
    {
        let mut i: usize = 0;
        while i < self.agent_navigation.len()
            invariant
                i <= self.agent_navigation@.len(),
                forall|k: int|
                    0 <= k < i ==> (#[trigger] self.agent_navigation@[k]).thread_id@
                        != thread_id@,
            decreases self.agent_navigation@.len() - i,
        {
            if same_text(self.agent_navigation[i].thread_id.as_str(), thread_id) {
                return true;
            }
            i += 1;
        }
        false
    }

    /// The threads that a notification of collaborating agents adds to the picker, each once.
    /// One that tells of a sub-agent's activity is recorded as that, and adds none.
    ///
    /// Only what is known locally counts: names and roles come later, and until then a thread is
    /// shown by its identifier.
    pub fn cache_collab_receiver_threads_for_notification(
        &self,
        tells_activity: bool,
        receivers: &Option<Vec<CollabReceiver>>,
    ) -> (added: Vec<ThreadId>)
        ensures
            text_views(added@) == match *receivers {
                Some(receivers) if !tells_activity => new_receivers(
                    *self,
                    receivers@,
                    receivers@.len(),
                ),
                _ => Seq::<Seq<char>>::empty(),
            },
    {
        let mut added: Vec<ThreadId> = Vec::new();
        assert(text_views(added@) =~= Seq::<Seq<char>>::empty());
        let receivers: &Vec<CollabReceiver> = match receivers {
            Some(receivers) if !tells_activity => receivers,
            _ => return added,
        };
        let mut i: usize = 0;
        while i < receivers.len()
            invariant
                i <= receivers@.len(),
                text_views(added@) =~= new_receivers(*self, receivers@, i as nat),
            decreases receivers@.len() - i,
        {
            let receiver: &CollabReceiver = &receivers[i];
            if let Some(thread_id) = &receiver.thread_id {
                let known: bool = knows(&added, thread_id.as_str());
                if !receiver.not_found && !self.is_in_picker(thread_id.as_str()) && !known {
                    let ghost before = text_views(added@);
                    added.push(thread_id.clone());
                    assert(text_views(added@) =~= before.push(thread_id@));
                }
            }
            i += 1;
        }
        added
    }
}

fn knows(threads: &Vec<ThreadId>, thread_id: &str) -> (known: bool)
    ensures
        known == text_views(threads@).contains(thread_id@),
{
    let ghost views = text_views(threads@);
    let mut i: usize = 0;
    while i < threads.len()
        invariant
            i <= threads@.len(),
            views == text_views(threads@),
            forall|k: int| 0 <= k < i ==> #[trigger] views[k] != thread_id@,
        decreases threads@.len() - i,
    {
        if same_text(threads[i].as_str(), thread_id) {
            assert(views[i as int] == thread_id@);
            return true;
        }
        i += 1;
    }
    false
}

} // verus!
