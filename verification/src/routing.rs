//! Thread routing: which thread is shown, which threads are known, and what their events mean.
use crate::ledger::Ledger;
use crate::pending::{ComposerSubmissionTransition, PendingComposerSubmissionCommit};
use crate::receipt::CorrectionDispatchOutcome;
use crate::text::{copy_option, finds_text, lists_text, same_text};
use crate::turn::TurnConfig;
use crate::widget::{is_blank, is_blank_text, ChatWidget};
use vstd::prelude::*;
use vstd::string::*;

verus! {

pub const JSONRPC_INVALID_REQUEST: i64 = -32600;

pub const JSONRPC_INVALID_PARAMS: i64 = -32602;

/// A thread is named by the canonical text of its identifier.
pub type ThreadId = String;

/// An item of a turn, as far as composer submissions depend on it.
pub enum ThreadItem {
    UserMessage { client_id: Option<String> },
    Other,
}

pub struct Turn {
    pub id: String,
    pub items: Vec<ThreadItem>,
}

pub struct Thread {
    pub turns: Vec<Turn>,
}

/// A notification of the app-server, as far as routing depends on it.
pub enum ServerNotification {
    ItemCompleted { item: ThreadItem },
    TurnStarted,
    TurnCompleted { thread_id: String, turn_id: String },
    ThreadStarted { thread: StartedThread },
    ThreadClosed,
    ThreadSettingsUpdated,
    ThreadTokenUsageUpdated,
    Other,
}

/// What the app-server says of a thread that has started.
pub struct StartedThread {
    pub name: Option<String>,
    pub model_provider: String,
    pub cwd: String,
    pub rollout_path: Option<String>,
}

/// What is known of a thread's session.
pub struct ThreadSessionState {
    pub thread_id: ThreadId,
    pub thread_name: Option<String>,
    pub model_provider_id: String,
    pub model: String,
    pub cwd: String,
    pub rollout_path: Option<String>,
    /// The local message history is known.
    pub has_message_history: bool,
    /// The session runs at the highest effort.
    pub ultra_effort: bool,
}

/// An event of a thread that waits to be handled. Requests and answers are named by what the
/// host finds them again with.
pub enum ThreadBufferedEvent {
    Notification(ServerNotification),
    Request { request_id: String },
    HistoryEntryResponse { log_id: u64, offset: u64 },
    FeedbackSubmission,
}

/// What a side conversation is told of the thread that it belongs to.
pub type SideParentStatus = String;

/// Where a thread stands in the agent picker.
pub struct AgentEntry {
    pub thread_id: ThreadId,
    /// The name under which the picker lists the thread.
    pub item_name: String,
}

/// One thread's events: whether they are passed on, which turn is running, and what waits for
/// the user.
pub struct ThreadEventChannel {
    pub thread_id: ThreadId,
    pub active: bool,
    pub active_turn_id: Option<String>,
    pub receiver_parked: bool,
    pub session: Option<ThreadSessionState>,
    /// The events that are replayed when the thread is shown again.
    pub buffer: Vec<ThreadBufferedEvent>,
    /// How many events the buffer keeps.
    pub capacity: usize,
    /// The requests that wait for the user, by their identifiers.
    pub pending_requests: Vec<String>,
    /// Some request waits for an approval.
    pub has_pending_approvals: bool,
    pub side_parent_pending_status: Option<SideParentStatus>,
}

/// Which session a start-up resumes.
pub enum SessionSelection {
    StartFresh,
    Resume,
    Fork,
    Exit,
}

/// What the application knows of its threads.
pub struct App {
    pub chat_widget: ChatWidget,
    pub turn_config: TurnConfig,
    pub active_thread_id: Option<ThreadId>,
    pub active_receiver_held: bool,
    pub primary_thread_id: Option<ThreadId>,
    pub primary_session_configured: Option<ThreadSessionState>,
    /// What came for the primary thread before it was known.
    pub pending_primary_events: Vec<ThreadBufferedEvent>,
    pub pending_shutdown_exit_thread_id: Option<ThreadId>,
    /// A rollback was asked for and has not been answered.
    pub rollback_pending: bool,
    /// The thread whose side conversation is shown.
    pub active_side_parent_thread_id: Option<ThreadId>,
    /// The requests of the app-server that have not been answered.
    pub pending_app_server_requests: Vec<String>,
    pub thread_event_channels: Vec<ThreadEventChannel>,
    /// How many events a new channel holds.
    pub thread_event_channel_capacity: usize,
    pub thread_event_listener_tasks: Vec<ThreadId>,
    pub side_threads: Vec<ThreadId>,
    pub agent_navigation: Vec<AgentEntry>,
    pub pending_composer_submissions: Ledger<PendingComposerSubmissionCommit>,
    pub composer_submission_transitions: Vec<ComposerSubmissionTransition>,
}

/// Two names of threads that may be missing are the same.
pub open spec fn same_thread(a: Option<ThreadId>, b: Option<ThreadId>) -> bool {
    match (a, b) {
        (Some(x), Some(y)) => x@ == y@,
        (None, None) => true,
        _ => false,
    }
}

/// The thread that may be missing is `thread_id`.
pub open spec fn is_thread(shown: Option<ThreadId>, thread_id: Seq<char>) -> bool {
    shown is Some && shown->0@ == thread_id
}

/// `true` exactly when the thread that may be missing is `thread_id`.
pub fn names_thread(shown: &Option<ThreadId>, thread_id: &str) -> (names: bool)
    ensures
        names == is_thread(*shown, thread_id@),
{
    match shown {
        Some(shown) => same_text(shown.as_str(), thread_id),
        None => false,
    }
}

fn names_same_thread(a: &Option<ThreadId>, b: &Option<ThreadId>) -> (same: bool)
    ensures
        same == same_thread(*a, *b),
{
    match (a, b) {
        (Some(x), Some(y)) => same_text(x.as_str(), y.as_str()),
        (None, None) => true,
        _ => false,
    }
}

/// The place of the first agent entry of the thread from `from` on; the number of entries where
/// there is none.
pub open spec fn agent_index(agents: Seq<AgentEntry>, thread_id: Seq<char>, from: nat) -> nat
    decreases agents.len() - from,
{
    if from >= agents.len() {
        agents.len()
    } else if agents[from as int].thread_id@ == thread_id {
        from
    } else {
        agent_index(agents, thread_id, from + 1)
    }
}

/// The place of the channel of the thread from `from` on; the number of channels where there is
/// none.
pub open spec fn channel_index(
    channels: Seq<ThreadEventChannel>,
    thread_id: Seq<char>,
    from: nat,
) -> nat
    decreases channels.len() - from,
{
    if from >= channels.len() {
        channels.len()
    } else if channels[from as int].thread_id@ == thread_id {
        from
    } else {
        channel_index(channels, thread_id, from + 1)
    }
}

/// A channel that is new is found where it was added.
proof fn channel_pushed(channels: Seq<ThreadEventChannel>, made: ThreadEventChannel, from: nat)
    requires
        from <= channels.len(),
        channel_index(channels, made.thread_id@, from) == channels.len(),
    ensures
        channel_index(channels.push(made), made.thread_id@, from) == channels.len(),
    decreases channels.len() - from,
{
    let grown = channels.push(made);
    if from < channels.len() {
        assert(grown[from as int] == channels[from as int]);
        channel_pushed(channels, made, from + 1);
    } else {
        assert(grown[from as int] == made);
        reveal_with_fuel(channel_index, 2);
    }
}

/// Channels are found where they were while their threads stay in place.
pub proof fn channel_unmoved(
    before: Seq<ThreadEventChannel>,
    after: Seq<ThreadEventChannel>,
    thread_id: Seq<char>,
    from: nat,
)
    requires
        before.len() == after.len(),
        forall|i: int|
            0 <= i < before.len() ==> (#[trigger] after[i]).thread_id@ == before[i].thread_id@,
    ensures
        channel_index(after, thread_id, from) == channel_index(before, thread_id, from),
    decreases before.len() - from,
{
    if from < before.len() {
        assert(after[from as int].thread_id@ == before[from as int].thread_id@);
        channel_unmoved(before, after, thread_id, from + 1);
    }
}

/// How a refusal of the app-server ends a correction: only a request that the server rejected as
/// such is known not to have been applied.
pub fn correction_server_error_outcome(code: i64) -> (outcome: CorrectionDispatchOutcome)
    ensures
        outcome == if code == JSONRPC_INVALID_REQUEST || code == JSONRPC_INVALID_PARAMS {
            CorrectionDispatchOutcome::NotApplied
        } else {
            CorrectionDispatchOutcome::Unknown
        },
{
    if code == JSONRPC_INVALID_REQUEST || code == JSONRPC_INVALID_PARAMS {
        CorrectionDispatchOutcome::NotApplied
    } else {
        CorrectionDispatchOutcome::Unknown
    }
}

/// The first eight characters of a thread's name.
pub open spec fn short_id(thread_id: Seq<char>) -> Seq<char> {
    if thread_id.len() <= 8 {
        thread_id
    } else {
        thread_id.take(8)
    }
}

fn short_thread_id(thread_id: &str) -> (short: String)
    ensures
        short@ == short_id(thread_id@),
{
    let len: usize = thread_id.unicode_len();
    if len <= 8 {
        String::from_str(thread_id)
    } else {
        let short: String = String::from_str(thread_id.substring_char(0, 8));
        assert(short@ =~= thread_id@.take(8));
        short
    }
}

/// What `ignore_same_thread_resume` tells the user.
pub open spec fn already_viewing(label: Seq<char>) -> Seq<char> {
    "Already viewing "@ + label + "."@
}

impl App {
    /// The label of a thread: the name in the picker, told apart by the thread's name where that
    /// is only the default, and a default where the picker does not know the thread.
    pub open spec fn label_of(self, thread_id: Seq<char>) -> Seq<char> {
        let at = agent_index(self.agent_navigation@, thread_id, 0);
        if at < self.agent_navigation@.len() {
            let name = self.agent_navigation@[at as int].item_name@;
            if name == "Agent"@ {
                name + " ("@ + short_id(thread_id) + ")"@
            } else {
                name
            }
        } else if is_thread(self.primary_thread_id, thread_id) {
            "Main [default]"@
        } else {
            "Agent ("@ + short_id(thread_id) + ")"@
        }
    }

    fn agent_position(&self, thread_id: &str) -> (at: usize)
        ensures
            at == agent_index(self.agent_navigation@, thread_id@, 0),
            at <= self.agent_navigation@.len(),
    {
        let mut i: usize = 0;
        while i < self.agent_navigation.len()
            invariant
                i <= self.agent_navigation@.len(),
                agent_index(self.agent_navigation@, thread_id@, 0) == agent_index(
                    self.agent_navigation@,
                    thread_id@,
                    i as nat,
                ),
            decreases self.agent_navigation@.len() - i,
        {
            if same_text(self.agent_navigation[i].thread_id.as_str(), thread_id) {
                return i;
            }
            i += 1;
        }
        i
    }

    pub fn thread_label(&self, thread_id: &str) -> (label: String)
        ensures
            label@ == self.label_of(thread_id@),
    {
        let at: usize = self.agent_position(thread_id);
        if at < self.agent_navigation.len() {
            let name: &String = &self.agent_navigation[at].item_name;
            if same_text(name.as_str(), "Agent") {
                return name.clone().concat(" (").concat(short_thread_id(thread_id).as_str()).concat(
                    ")",
                );
            }
            return name.clone();
        }
        if names_thread(&self.primary_thread_id, thread_id) {
            String::from_str("Main [default]")
        } else {
            String::from_str("Agent (").concat(short_thread_id(thread_id).as_str()).concat(")")
        }
    }

    /// The place of a thread's channel; the number of channels where it has none.
    pub fn channel_position(&self, thread_id: &str) -> (at: usize)
        ensures
            at == channel_index(self.thread_event_channels@, thread_id@, 0),
            at <= self.thread_event_channels@.len(),
    {
        let mut i: usize = 0;
        while i < self.thread_event_channels.len()
            invariant
                i <= self.thread_event_channels@.len(),
                channel_index(self.thread_event_channels@, thread_id@, 0) == channel_index(
                    self.thread_event_channels@,
                    thread_id@,
                    i as nat,
                ),
            decreases self.thread_event_channels@.len() - i,
        {
            if same_text(self.thread_event_channels[i].thread_id.as_str(), thread_id) {
                return i;
            }
            i += 1;
        }
        i
    }

    /// The thread has a channel.
    pub open spec fn has_channel(self, thread_id: Seq<char>) -> bool {
        channel_index(self.thread_event_channels@, thread_id, 0)
            < self.thread_event_channels@.len()
    }

    /// The channel of a thread that has one.
    pub open spec fn channel(self, thread_id: Seq<char>) -> ThreadEventChannel {
        self.thread_event_channels@[channel_index(
            self.thread_event_channels@,
            thread_id,
            0,
        ) as int]
    }

    /// `after` is `self` with `channel` in place of the thread's channel.
    pub open spec fn rechannelled(
        self,
        after: Self,
        thread_id: Seq<char>,
        channel: ThreadEventChannel,
    ) -> bool {
        &&& after.thread_event_channels@ == self.thread_event_channels@.update(
            channel_index(self.thread_event_channels@, thread_id, 0) as int,
            channel,
        )
        &&& after == (App { thread_event_channels: after.thread_event_channels, ..self })
    }

    /// `after` is `self` with a channel of the thread: an idle, empty one where it had none.
    pub open spec fn channel_ensured(self, after: Self, thread_id: Seq<char>) -> bool {
        &&& after == (App { thread_event_channels: after.thread_event_channels, ..self })
        &&& if self.has_channel(thread_id) {
            after.thread_event_channels@ == self.thread_event_channels@
        } else {
            let made = after.thread_event_channels@.last();
            &&& after.thread_event_channels@ == self.thread_event_channels@.push(made)
            &&& made.thread_id@ == thread_id
            &&& !made.active
            &&& made.active_turn_id is None
            &&& made.receiver_parked
            &&& made.session is None
            &&& made.buffer@.len() == 0
            &&& made.capacity == self.thread_event_channel_capacity
            &&& made.pending_requests@.len() == 0
            &&& !made.has_pending_approvals
            &&& made.side_parent_pending_status is None
        }
    }

    /// Gives a thread a channel where it has none: an idle one.
    pub fn ensure_thread_channel(&mut self, thread_id: &str) -> (at: usize)
        ensures
            old(self).channel_ensured(*final(self), thread_id@),
            at < final(self).thread_event_channels@.len(),
            at == channel_index(final(self).thread_event_channels@, thread_id@, 0),
    {
        let ghost before = *self;
        let at: usize = self.channel_position(thread_id);
        if at >= self.thread_event_channels.len() {
            self.thread_event_channels.push(
                ThreadEventChannel {
                    thread_id: String::from_str(thread_id),
                    active: false,
                    active_turn_id: None,
                    receiver_parked: true,
                    session: None,
                    buffer: Vec::new(),
                    capacity: self.thread_event_channel_capacity,
                    pending_requests: Vec::new(),
                    has_pending_approvals: false,
                    side_parent_pending_status: None,
                },
            );
            proof {
                let made = self.thread_event_channels@.last();
                channel_pushed(before.thread_event_channels@, made, 0);
            }
        }
        at
    }

    /// Marks whether a thread's events are passed on.
    pub fn set_thread_active(&mut self, thread_id: &str, active: bool)
        ensures
            if old(self).has_channel(thread_id@) {
                old(self).rechannelled(
                    *final(self),
                    thread_id@,
                    ThreadEventChannel { active, ..old(self).channel(thread_id@) },
                )
            } else {
                *final(self) == *old(self)
            },
    {
        let at: usize = self.channel_position(thread_id);
        if at < self.thread_event_channels.len() {
            let ghost before = self.thread_event_channels@;
            self.thread_event_channels[at].active = active;
            assert(self.thread_event_channels@ =~= before.update(
                at as int,
                ThreadEventChannel { active, ..before[at as int] },
            ));
        }
    }

    /// Shows a thread where none is shown: its events are passed on from now, and its receiver is
    /// taken.
    pub fn activate_thread_channel(&mut self, thread_id: &str)
        ensures
            old(self).active_thread_id is Some ==> *final(self) == *old(self),
            old(self).active_thread_id is None ==> {
                &&& is_thread(final(self).active_thread_id, thread_id@)
                &&& *final(self) == (App {
                    thread_event_channels: final(self).thread_event_channels,
                    active_thread_id: final(self).active_thread_id,
                    active_receiver_held: final(self).active_receiver_held,
                    ..*old(self)
                })
                &&& if old(self).has_channel(thread_id@) {
                    let channel = old(self).channel(thread_id@);
                    &&& final(self).active_receiver_held == channel.receiver_parked
                    &&& final(self).thread_event_channels@
                        == old(self).thread_event_channels@.update(
                        channel_index(old(self).thread_event_channels@, thread_id@, 0) as int,
                        ThreadEventChannel { active: true, receiver_parked: false, ..channel },
                    )
                } else {
                    &&& !final(self).active_receiver_held
                    &&& final(self).thread_event_channels@ == old(self).thread_event_channels@
                }
            },
    {
        if self.active_thread_id.is_some() {
            return;
        }
        let at: usize = self.channel_position(thread_id);
        let mut held = false;
        if at < self.thread_event_channels.len() {
            let ghost before = self.thread_event_channels@;
            held = self.thread_event_channels[at].receiver_parked;
            self.thread_event_channels[at].active = true;
            self.thread_event_channels[at].receiver_parked = false;
            assert(self.thread_event_channels@ =~= before.update(
                at as int,
                ThreadEventChannel { active: true, receiver_parked: false, ..before[at as int] },
            ));
        }
        self.active_thread_id = Some(String::from_str(thread_id));
        self.active_receiver_held = held;
    }

    /// Parks the receiver of the shown thread in its channel; its events are no longer passed on.
    pub fn store_active_thread_receiver(&mut self)
        ensures
            match old(self).active_thread_id {
                Some(active) if old(self).has_channel(active@) => {
                    let channel = old(self).channel(active@);
                    &&& !final(self).active_receiver_held
                    &&& final(self).thread_event_channels@
                        == old(self).thread_event_channels@.update(
                        channel_index(old(self).thread_event_channels@, active@, 0) as int,
                        ThreadEventChannel {
                            active: false,
                            receiver_parked: channel.receiver_parked
                                || old(self).active_receiver_held,
                            ..channel
                        },
                    )
                    &&& *final(self) == (App {
                        thread_event_channels: final(self).thread_event_channels,
                        active_receiver_held: false,
                        ..*old(self)
                    })
                },
                _ => *final(self) == *old(self),
            },
    {
        let active: String = match &self.active_thread_id {
            Some(active) => active.clone(),
            None => return,
        };
        let at: usize = self.channel_position(active.as_str());
        if at < self.thread_event_channels.len() {
            let ghost before = self.thread_event_channels@;
            let held: bool = self.active_receiver_held;
            self.active_receiver_held = false;
            self.thread_event_channels[at].active = false;
            if held {
                self.thread_event_channels[at].receiver_parked = true;
            }
            assert(self.thread_event_channels@ =~= before.update(
                at as int,
                ThreadEventChannel {
                    active: false,
                    receiver_parked: before[at as int].receiver_parked || held,
                    ..before[at as int]
                },
            ));
        }
    }

    /// Takes the parked receiver of a thread for a replay; none where it is not there.
    pub fn activate_thread_for_replay(&mut self, thread_id: &str) -> (taken: bool)
        ensures
            taken == (old(self).has_channel(thread_id@) && old(self).channel(
                thread_id@,
            ).receiver_parked),
            if taken {
                old(self).rechannelled(
                    *final(self),
                    thread_id@,
                    ThreadEventChannel {
                        active: true,
                        receiver_parked: false,
                        ..old(self).channel(thread_id@)
                    },
                )
            } else {
                *final(self) == *old(self)
            },
    {
        let at: usize = self.channel_position(thread_id);
        if at >= self.thread_event_channels.len()
            || !self.thread_event_channels[at].receiver_parked {
            return false;
        }
        let ghost before = self.thread_event_channels@;
        self.thread_event_channels[at].receiver_parked = false;
        self.thread_event_channels[at].active = true;
        assert(self.thread_event_channels@ =~= before.update(
            at as int,
            ThreadEventChannel { active: true, receiver_parked: false, ..before[at as int] },
        ));
        true
    }

    /// Shows no thread any more.
    pub fn clear_active_thread(&mut self)
        ensures
            final(self).active_thread_id is None,
            !final(self).active_receiver_held,
            *final(self) == (App {
                thread_event_channels: final(self).thread_event_channels,
                active_thread_id: None,
                active_receiver_held: false,
                ..*old(self)
            }),
            match old(self).active_thread_id {
                Some(active) if old(self).has_channel(active@) => {
                    final(self).thread_event_channels@ == old(self).thread_event_channels@.update(
                        channel_index(old(self).thread_event_channels@, active@, 0) as int,
                        ThreadEventChannel { active: false, ..old(self).channel(active@) },
                    )
                },
                _ => final(self).thread_event_channels@ == old(self).thread_event_channels@,
            },
    {
        let active: Option<String> = copy_option(&self.active_thread_id);
        if let Some(active) = active {
            self.set_thread_active(active.as_str(), false);
        }
        self.active_thread_id = None;
        self.active_receiver_held = false;
    }

    /// The turn that runs in a thread, as far as its channel knows.
    pub open spec fn running_turn(self, thread_id: Seq<char>) -> Option<Seq<char>> {
        if self.has_channel(thread_id) {
            match self.channel(thread_id).active_turn_id {
                Some(turn_id) => Some(turn_id@),
                None => None,
            }
        } else {
            None
        }
    }

    pub fn active_turn_id_for_thread(&self, thread_id: &str) -> (turn_id: Option<String>)
        ensures
            crate::target::text_view(turn_id) == self.running_turn(thread_id@),
    {
        let at: usize = self.channel_position(thread_id);
        if at < self.thread_event_channels.len() {
            match &self.thread_event_channels[at].active_turn_id {
                Some(turn_id) => Some(turn_id.clone()),
                None => None,
            }
        } else {
            None
        }
    }

    /// The thread for which an operation on the active thread is noted, where the operation can
    /// change what is replayed.
    pub fn note_active_thread_outbound_op(&self, changes_replay: bool) -> (thread_id: Option<
        ThreadId,
    >)
        ensures
            thread_id == if changes_replay {
                self.active_thread_id
            } else {
                None
            },
    {
        if changes_replay {
            copy_option(&self.active_thread_id)
        } else {
            None
        }
    }

    /// Notes which turn runs in a thread.
    pub fn set_active_turn_id(&mut self, thread_id: &str, turn_id: Option<String>)
        ensures
            if old(self).has_channel(thread_id@) {
                old(self).rechannelled(
                    *final(self),
                    thread_id@,
                    ThreadEventChannel {
                        active_turn_id: turn_id,
                        ..old(self).channel(thread_id@)
                    },
                )
            } else {
                *final(self) == *old(self)
            },
    {
        let at: usize = self.channel_position(thread_id);
        if at < self.thread_event_channels.len() {
            let ghost before = self.thread_event_channels@;
            self.thread_event_channels[at].active_turn_id = turn_id;
            assert(self.thread_event_channels@ =~= before.update(
                at as int,
                ThreadEventChannel { active_turn_id: turn_id, ..before[at as int] },
            ));
        }
    }

    /// The thread whose transcript is on screen.
    ///
    /// `active_thread_id` is the source of truth during steady state, but the widget can briefly
    /// lag behind thread bookkeeping during transitions.
    pub fn current_displayed_thread_id(&self) -> (shown: Option<ThreadId>)
        ensures
            shown == if self.active_thread_id is Some {
                self.active_thread_id
            } else {
                self.chat_widget.thread_id
            },
    {
        if self.active_thread_id.is_some() {
            copy_option(&self.active_thread_id)
        } else {
            copy_option(&self.chat_widget.thread_id)
        }
    }

    /// What the user is told when asking to resume the thread that is shown already.
    pub fn ignore_same_thread_resume(&self, thread_id: &str, display_label: &str) -> (info: Option<
        String,
    >)
        ensures
            info is Some == is_thread(self.active_thread_id, thread_id@),
            info is Some ==> info->0@ == already_viewing(display_label@),
    {
        if !names_thread(&self.active_thread_id, thread_id) {
            return None;
        }
        Some(String::from_str("Already viewing ").concat(display_label).concat("."))
    }

    /// Which threads the footer label depends on: the shown one and the primary one.
    pub fn sync_active_agent_label(&self) -> (threads: (Option<ThreadId>, Option<ThreadId>))
        ensures
            threads.0 == if self.active_thread_id is Some {
                self.active_thread_id
            } else {
                self.chat_widget.thread_id
            },
            threads.1 == self.primary_thread_id,
    {
        (self.current_displayed_thread_id(), copy_option(&self.primary_thread_id))
    }

    /// Forgets the listener of a thread; `true` where there was one, which is then to be stopped.
    pub fn abort_thread_event_listener(&mut self, thread_id: &str) -> (aborted: bool)
        ensures
            aborted == lists_text(old(self).thread_event_listener_tasks@, thread_id@),
            *final(self) == (App {
                thread_event_listener_tasks: final(self).thread_event_listener_tasks,
                ..*old(self)
            }),
            aborted ==> exists|i: int|
                0 <= i < old(self).thread_event_listener_tasks@.len() && (
                #[trigger] old(self).thread_event_listener_tasks@[i])@ == thread_id@
                    && final(self).thread_event_listener_tasks@
                    == old(self).thread_event_listener_tasks@.remove(i),
            !aborted ==> final(self).thread_event_listener_tasks@
                == old(self).thread_event_listener_tasks@,
    {
        let mut i: usize = 0;
        while i < self.thread_event_listener_tasks.len()
            invariant
                *self == *old(self),
                i <= self.thread_event_listener_tasks@.len(),
                forall|k: int|
                    0 <= k < i ==> (#[trigger] self.thread_event_listener_tasks@[k])@
                        != thread_id@,
            decreases self.thread_event_listener_tasks@.len() - i,
        {
            if same_text(self.thread_event_listener_tasks[i].as_str(), thread_id) {
                assert(old(self).thread_event_listener_tasks@[i as int]@ == thread_id@);
                let _handle: String = self.thread_event_listener_tasks.remove(i);
                return true;
            }
            i += 1;
        }
        false
    }

    /// Forgets all listeners, which are then to be stopped.
    pub fn abort_all_thread_event_listeners(&mut self) -> (aborted: Vec<ThreadId>)
        ensures
            aborted@ == old(self).thread_event_listener_tasks@,
            final(self).thread_event_listener_tasks@.len() == 0,
            *final(self) == (App {
                thread_event_listener_tasks: final(self).thread_event_listener_tasks,
                ..*old(self)
            }),
    {
        let mut aborted: Vec<ThreadId> = Vec::new();
        aborted.append(&mut self.thread_event_listener_tasks);
        assert(aborted@ =~= old(self).thread_event_listener_tasks@);
        aborted
    }

    /// `(closed_thread_id, primary_thread_id)` when a non-primary active thread has died and the
    /// primary thread takes over.
    ///
    /// A shutdown that the user asked for is not taken over, so that an exit does not resurrect
    /// the main thread.
    pub fn active_non_primary_shutdown_target(&self, notification: &ServerNotification) -> (target:
        Option<(ThreadId, ThreadId)>)
        ensures
            match target {
                Some((closed, primary)) => {
                    &&& *notification is ThreadClosed
                    &&& self.active_thread_id == Some(closed)
                    &&& self.primary_thread_id == Some(primary)
                    &&& closed@ != primary@
                    &&& !is_thread(self.pending_shutdown_exit_thread_id, closed@)
                },
                None => {
                    ||| !(*notification is ThreadClosed)
                    ||| self.active_thread_id is None
                    ||| self.primary_thread_id is None
                    ||| is_thread(
                        self.pending_shutdown_exit_thread_id,
                        self.active_thread_id->0@,
                    )
                    ||| self.active_thread_id->0@ == self.primary_thread_id->0@
                },
            },
    {
        if !matches!(notification, ServerNotification::ThreadClosed) {
            return None;
        }
        match (&self.active_thread_id, &self.primary_thread_id) {
            (Some(active), Some(primary)) => {
                if names_thread(&self.pending_shutdown_exit_thread_id, active.as_str())
                    || same_text(active.as_str(), primary.as_str()) {
                    None
                } else {
                    Some((active.clone(), primary.clone()))
                }
            },
            _ => None,
        }
    }

    /// The closed thread is the one whose shutdown the user asked for.
    pub fn is_pending_shutdown_exit(&self, notification: &ServerNotification) -> (is: bool)
        ensures
            is == (*notification is ThreadClosed && same_thread(
                self.pending_shutdown_exit_thread_id,
                self.active_thread_id,
            )),
    {
        matches!(notification, ServerNotification::ThreadClosed) && names_same_thread(
            &self.pending_shutdown_exit_thread_id,
            &self.active_thread_id,
        )
    }

    /// A stored session is refreshed before its replay where it is missing or only inferred.
    /// `session` is the stored session's model and whether its rollout is known.
    pub fn should_refresh_snapshot_session(
        &self,
        thread_id: &str,
        is_replay_only: bool,
        session: &Option<(String, bool)>,
    ) -> (refresh: bool)
        ensures
            refresh == (!is_replay_only && !lists_text(self.side_threads@, thread_id@)
                && match *session {
                Some((model, has_rollout)) => is_blank_text(model@) || !has_rollout,
                None => true,
            }),
    {
        if is_replay_only || finds_text(&self.side_threads, thread_id) {
            return false;
        }
        match session {
            Some((model, has_rollout)) => is_blank(model.as_str()) || !*has_rollout,
            None => true,
        }
    }

    pub fn should_wait_for_initial_session(session_selection: &SessionSelection) -> (wait: bool)
        ensures
            wait == (*session_selection is StartFresh || *session_selection is Exit),
    {
        matches!(session_selection, SessionSelection::StartFresh | SessionSelection::Exit)
    }

    pub fn should_prompt_for_paused_goal_after_startup_resume(
        session_selection: &SessionSelection,
        initial_prompt: &Option<String>,
        initial_images: &Vec<String>,
    ) -> (prompt: bool)
        ensures
            prompt == (*session_selection is Resume && *initial_prompt is None
                && initial_images@.len() == 0),
    {
        matches!(session_selection, SessionSelection::Resume) && initial_prompt.is_none()
            && initial_images.len() == 0
    }

    pub fn should_handle_active_thread_events(
        waiting_for_initial_session_configured: bool,
        has_active_thread_receiver: bool,
    ) -> (handle: bool)
        ensures
            handle == (has_active_thread_receiver && !waiting_for_initial_session_configured),
    {
        has_active_thread_receiver && !waiting_for_initial_session_configured
    }

    pub fn should_stop_waiting_for_initial_session(
        waiting_for_initial_session_configured: bool,
        primary_thread_id: &Option<ThreadId>,
    ) -> (stop: bool)
        ensures
            stop == (waiting_for_initial_session_configured && *primary_thread_id is Some),
    {
        waiting_for_initial_session_configured && primary_thread_id.is_some()
    }
}

} // verus!
