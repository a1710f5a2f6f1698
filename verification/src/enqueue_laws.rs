//! Where what comes from the app-server goes, and what is made of it.
use crate::enqueue::{
    buffered, new_receivers, CollabReceiver, EnqueuedStep, StatusStep,
};
use crate::fence::FenceTable;
use crate::interactive::text_views;
use crate::pending::NotifiedOutcome;
use crate::routing::{
    channel_unmoved, App, ServerNotification, SideParentStatus, StartedThread,
    ThreadBufferedEvent, ThreadEventChannel, ThreadId, ThreadSessionState,
};
use crate::routing_laws::{found_channel, others_kept, replaced_channel, added_channel};
use vstd::prelude::*;
use vstd::string::*;

verus! {

/// A session is inferred for a thread that has started, once the primary session is known, and for
/// nothing else. It is the thread's own: its name, provider, directory and rollout are those of the
/// thread, and the local message history of the primary one is not taken over.
pub proof fn an_inferred_session_is_the_threads_own(
    app: App,
    thread_id: &str,
    notification: ServerNotification,
    model: Option<String>,
    session: Option<ThreadSessionState>,
)
    requires
        call_ensures(
            App::infer_session_for_thread_notification,
            (&app, thread_id, &notification, &model),
            session,
        ),
    ensures
        session is Some <==> notification is ThreadStarted
            && app.primary_session_configured is Some,
        session matches Some(made) ==> {
            let thread = notification->thread;
            &&& made.thread_id@ == thread_id@
            &&& made.thread_name == thread.name
            &&& made.model_provider_id == thread.model_provider
            &&& made.cwd == thread.cwd
            &&& made.rollout_path == thread.rollout_path
            &&& !made.has_message_history
            &&& made.ultra_effort == app.primary_session_configured->0.ultra_effort
        },
        session matches Some(made) ==> {
            &&& model matches Some(recorded) ==> made.model == recorded
            &&& model is None && notification->thread.rollout_path is None ==> made.model
                == app.primary_session_configured->0.model
            &&& model is None && notification->thread.rollout_path is Some ==> made.model@.len()
                == 0
        },
{
    reveal_strlit("");
}

/// Settings of a thread that is neither the primary one nor known are dropped without a trace;
/// everything else gives its thread a channel. A session that is known is not replaced by one that
/// is inferred.
pub proof fn a_notification_gives_its_thread_a_channel(
    app: &mut App,
    thread_id: &str,
    notification: ServerNotification,
    inferred: Option<ThreadSessionState>,
    fences: FenceTable,
    noted: Option<NotifiedOutcome>,
)
    requires
        call_ensures(
            App::enqueue_thread_notification,
            (app, thread_id, &notification, inferred, &fences),
            noted,
        ),
    ensures
        noted is None <==> {
            &&& notification is ThreadSettingsUpdated
            &&& old(app).primary_thread_id matches Some(primary)
            &&& primary@ != thread_id@
            &&& !old(app).has_channel(thread_id@)
        },
        noted is None ==> *final(app) == *old(app),
        noted is Some ==> {
            &&& final(app).has_channel(thread_id@)
            &&& final(app).channel(thread_id@).session == (if old(app).has_channel(thread_id@)
                && old(app).channel(thread_id@).session is Some {
                old(app).channel(thread_id@).session
            } else {
                inferred
            })
            &&& old(app).has_channel(thread_id@) ==> final(app).channel(thread_id@) == (
            ThreadEventChannel {
                session: final(app).channel(thread_id@).session,
                ..old(app).channel(thread_id@)
            })
            &&& others_kept(*old(app), *final(app), thread_id@)
            &&& final(app).active_thread_id == old(app).active_thread_id
            &&& final(app).primary_thread_id == old(app).primary_thread_id
        },
{
    if let Some(outcome) = noted {
        let told = choose|told: App|
            {
                &&& #[trigger] old(app).notification_step(
                    told,
                    notification,
                    fences.fences@,
                    outcome,
                )
                &&& told.session_ensured(*final(app), thread_id@, inferred)
            };
        notified_keeps_threads(*old(app), told, notification, fences, outcome);
        let ensured = choose|ensured: App|
            {
                &&& #[trigger] told.channel_ensured(ensured, thread_id@)
                &&& ensured.rechannelled(
                    *final(app),
                    thread_id@,
                    ThreadEventChannel {
                        session: match ensured.channel(thread_id@).session {
                            Some(known) => Some(known),
                            None => inferred,
                        },
                        ..ensured.channel(thread_id@)
                    },
                )
            };
        found_channel(told.thread_event_channels@, thread_id@, 0);
        if !told.has_channel(thread_id@) {
            added_channel(told, ensured, ensured.thread_event_channels@.last());
        }
        found_channel(ensured.thread_event_channels@, thread_id@, 0);
        replaced_channel(
            ensured,
            *final(app),
            thread_id@,
            ThreadEventChannel {
                session: match ensured.channel(thread_id@).session {
                    Some(known) => Some(known),
                    None => inferred,
                },
                ..ensured.channel(thread_id@)
            },
        );
        assert forall|other: Seq<char>| other != thread_id@ implies #[trigger] final(app).has_channel(other) == old(app).has_channel(other) && (old(app).has_channel(other)
            ==> final(app).channel(other) == old(app).channel(other)) by {
            assert(ensured.has_channel(other) == told.has_channel(other));
            assert(final(app).has_channel(other) == ensured.has_channel(other));
        }
    }
}

proof fn notified_keeps_threads(
    app: App,
    told: App,
    notification: ServerNotification,
    fences: FenceTable,
    outcome: NotifiedOutcome,
)
    requires
        app.notification_step(told, notification, fences.fences@, outcome),
    ensures
        told.thread_event_channels == app.thread_event_channels,
        told.active_thread_id == app.active_thread_id,
        told.primary_thread_id == app.primary_thread_id,
{
}

/// What is stored for a thread is passed on exactly where that thread's events are. What waits in
/// the thread is told to its side conversation before what a notification or a request itself says.
pub proof fn what_waits_comes_before_what_is_said(
    app: App,
    thread_id: &str,
    changes_status: bool,
    is_interactive: bool,
    request_status: Option<SideParentStatus>,
    notified: EnqueuedStep,
    requested: (EnqueuedStep, bool),
)
    requires
        call_ensures(
            App::finish_enqueued_notification,
            (&app, thread_id, changes_status),
            notified,
        ),
        call_ensures(
            App::enqueue_thread_request,
            (&app, thread_id, is_interactive, request_status),
            requested,
        ),
    ensures
        notified.send == (app.has_channel(thread_id@) && app.channel(thread_id@).active),
        requested.0.send == notified.send,
        app.has_channel(thread_id@) && app.channel(thread_id@).side_parent_pending_status is Some
            ==> {
            let waits = app.channel(thread_id@).side_parent_pending_status->0;
            &&& notified.status == StatusStep::Tell(waits)
            &&& requested.0.status == StatusStep::Tell(waits)
        },
        !(app.has_channel(thread_id@) && app.channel(
            thread_id@,
        ).side_parent_pending_status is Some) ==> {
            &&& changes_status ==> notified.status is Apply
            &&& !changes_status ==> notified.status is Keep
            &&& request_status matches Some(said) ==> requested.0.status == StatusStep::Tell(said)
            &&& request_status is None ==> requested.0.status is Keep
        },
{
}

/// A request is put to the user from here only where nobody else does: its thread is hidden, no
/// side conversation is shown, and the user has something to do with it.
pub proof fn hidden_requests_are_put_to_the_user(
    app: App,
    thread_id: &str,
    is_interactive: bool,
    request_status: Option<SideParentStatus>,
    requested: (EnqueuedStep, bool),
    inactive: bool,
)
    requires
        call_ensures(
            App::enqueue_thread_request,
            (&app, thread_id, is_interactive, request_status),
            requested,
        ),
        call_ensures(App::is_inactive_request, (&app, thread_id), inactive),
    ensures
        inactive <==> !(app.active_thread_id matches Some(active) && active@ == thread_id@),
        requested.1 ==> is_interactive && inactive && !requested.0.send
            && app.active_side_parent_thread_id is None,
        is_interactive && inactive && !requested.0.send && app.active_side_parent_thread_id is None
            ==> requested.1,
{
}

/// A side conversation is told what waits in its parent, or that nothing waits any more; of a
/// thread that is not known nothing is told.
pub proof fn a_side_conversation_is_told_what_waits(app: App, thread_id: &str, status: StatusStep)
    requires
        call_ensures(App::refresh_side_parent_status_from_store, (&app, thread_id), status),
    ensures
        !app.has_channel(thread_id@) ==> status is Keep,
        app.has_channel(thread_id@) ==> match app.channel(thread_id@).side_parent_pending_status {
            Some(waits) => status == StatusStep::Tell(waits),
            None => status is ClearAction,
        },
{
}

/// An answer of the message history is stored behind what is there, in its thread alone. A buffer
/// that is full loses its oldest event for it, and of a request that is lost that way the
/// identifier is handed out.
pub proof fn an_answer_is_stored_last(
    app: &mut App,
    thread_id: &str,
    log_id: u64,
    offset: u64,
    step: (bool, Option<String>),
)
    requires
        call_ensures(
            App::enqueue_thread_history_entry_response,
            (app, thread_id, log_id, offset),
            step,
        ),
        old(app).has_channel(thread_id@),
        0 < old(app).channel(thread_id@).capacity,
    ensures
        final(app).has_channel(thread_id@),
        others_kept(*old(app), *final(app), thread_id@),
        step.0 == old(app).channel(thread_id@).active,
        ({
            let before = old(app).channel(thread_id@).buffer@;
            let after = final(app).channel(thread_id@).buffer@;
            let full = before.len() >= old(app).channel(thread_id@).capacity;
            &&& after.len() > 0
            &&& after.last() == (ThreadBufferedEvent::HistoryEntryResponse { log_id, offset })
            &&& !full ==> after.drop_last() == before && step.1 is None
            &&& full ==> after.drop_last() == before.drop_first()
            &&& full ==> step.1 == (match before.first() {
                ThreadBufferedEvent::Request { request_id } => Some(request_id),
                _ => None,
            })
        }),
{
    let event = ThreadBufferedEvent::HistoryEntryResponse { log_id, offset };
    let ensured = choose|ensured: App|
        {
            let channel = ensured.channel(thread_id@);
            let after = final(app).channel(thread_id@);
            &&& #[trigger] old(app).channel_ensured(ensured, thread_id@)
            &&& ensured.rechannelled(*final(app), thread_id@, after)
            &&& after == (ThreadEventChannel { buffer: after.buffer, ..channel })
            &&& after.buffer@ == buffered(channel.buffer@, event, channel.capacity as nat)
            &&& step.0 == channel.active
            &&& step.1 == crate::enqueue::evicted_request(
                channel.buffer@,
                event,
                channel.capacity as nat,
            )
        };
    found_channel(ensured.thread_event_channels@, thread_id@, 0);
    let before = old(app).channel(thread_id@).buffer@;
    let after = final(app).channel(thread_id@);
    replaced_channel(ensured, *final(app), thread_id@, after);
    assert(ensured.channel(thread_id@) == old(app).channel(thread_id@));
    assert(before.push(event).skip(1).drop_last() =~= before.drop_first() || before.len() == 0);
    assert(before.push(event).drop_last() =~= before);
    assert forall|other: Seq<char>| other != thread_id@ implies #[trigger] final(app).has_channel(
        other,
    ) == old(app).has_channel(other) && (old(app).has_channel(other) ==> final(app).channel(other)
        == old(app).channel(other)) by {
        assert(final(app).has_channel(other) == ensured.has_channel(other));
    }
}

/// What comes for the primary thread goes to it as it came, once it is known, and till then waits
/// behind what waits already.
pub proof fn the_primary_thread_gets_what_is_its(
    app: &mut App,
    notification: ServerNotification,
    routed: Option<(ThreadId, ThreadBufferedEvent)>,
)
    requires
        call_ensures(App::enqueue_primary_thread_notification, (app, notification), routed),
    ensures
        match old(app).primary_thread_id {
            Some(primary) => {
                &&& routed == Some((primary, ThreadBufferedEvent::Notification(notification)))
                &&& *final(app) == *old(app)
            },
            None => {
                &&& routed is None
                &&& final(app).pending_primary_events@.last()
                    == ThreadBufferedEvent::Notification(notification)
                &&& final(app).pending_primary_events@.drop_last() == old(app).pending_primary_events@
                &&& final(app).primary_thread_id is None
            },
        },
{
    if old(app).primary_thread_id is None {
        assert(final(app).pending_primary_events@.drop_last() =~= old(app).pending_primary_events@);
    }
}

/// A request for the primary thread goes the way of a notification.
pub proof fn the_primary_thread_gets_its_requests(
    app: &mut App,
    request_id: String,
    routed: Option<(ThreadId, ThreadBufferedEvent)>,
)
    requires
        call_ensures(App::enqueue_primary_thread_request, (app, request_id), routed),
    ensures
        match old(app).primary_thread_id {
            Some(primary) => {
                &&& routed == Some((primary, ThreadBufferedEvent::Request { request_id }))
                &&& *final(app) == *old(app)
            },
            None => {
                &&& routed is None
                &&& final(app).pending_primary_events@.last() == (ThreadBufferedEvent::Request {
                    request_id,
                })
                &&& final(app).pending_primary_events@.drop_last() == old(app).pending_primary_events@
            },
        },
{
    if old(app).primary_thread_id is None {
        assert(final(app).pending_primary_events@.drop_last() =~= old(app).pending_primary_events@);
    }
}

/// Once the primary session is known its thread is the primary one and has a channel with that
/// session; it is shown where no thread was, and all that waited is handed out, in order.
pub proof fn the_primary_session_takes_what_waited(
    app: &mut App,
    session: ThreadSessionState,
    waited: Vec<ThreadBufferedEvent>,
)
    requires
        call_ensures(App::enqueue_primary_thread_session, (app, session), waited),
    ensures
        waited@ == old(app).pending_primary_events@,
        final(app).pending_primary_events@.len() == 0,
        final(app).primary_thread_id == Some(session.thread_id),
        final(app).primary_session_configured == Some(session),
        final(app).has_channel(session.thread_id@),
        final(app).channel(session.thread_id@).session == Some(session),
        others_kept(*old(app), *final(app), session.thread_id@),
        old(app).active_thread_id is Some ==> final(app).active_thread_id == old(app).active_thread_id && final(app).active_receiver_held == old(app).active_receiver_held,
        old(app).active_thread_id is None ==> {
            &&& final(app).active_thread_id matches Some(shown)
            &&& shown@ == session.thread_id@
            &&& final(app).channel(session.thread_id@).active
            &&& final(app).active_receiver_held == (old(app).has_channel(session.thread_id@)
                ==> old(app).channel(session.thread_id@).receiver_parked)
        },
{
    let name = session.thread_id@;
    let after = *final(app);
    let primary = App {
        primary_thread_id: after.primary_thread_id,
        primary_session_configured: after.primary_session_configured,
        ..*old(app)
    };
    let shows = old(app).active_thread_id is None;
    let ensured = choose|ensured: App|
        {
            let channel = ThreadEventChannel { session: Some(session), ..ensured.channel(name) };
            &&& #[trigger] primary.channel_ensured(ensured, name)
            &&& after.thread_event_channels@ == ensured.thread_event_channels@.update(
                crate::routing::channel_index(ensured.thread_event_channels@, name, 0) as int,
                if shows {
                    ThreadEventChannel { active: true, receiver_parked: false, ..channel }
                } else {
                    channel
                },
            )
            &&& after.active_receiver_held == if shows {
                channel.receiver_parked
            } else {
                old(app).active_receiver_held
            }
        };
    found_channel(primary.thread_event_channels@, name, 0);
    if !primary.has_channel(name) {
        added_channel(primary, ensured, ensured.thread_event_channels@.last());
    }
    found_channel(ensured.thread_event_channels@, name, 0);
    let channel = ThreadEventChannel { session: Some(session), ..ensured.channel(name) };
    replaced_channel(
        ensured,
        after,
        name,
        if shows {
            ThreadEventChannel { active: true, receiver_parked: false, ..channel }
        } else {
            channel
        },
    );
    assert forall|other: Seq<char>| other != name implies #[trigger] after.has_channel(other)
        == old(app).has_channel(other) && (old(app).has_channel(other) ==> after.channel(other)
        == old(app).channel(other)) by {
        assert(after.has_channel(other) == ensured.has_channel(other));
        assert(ensured.has_channel(other) == primary.has_channel(other));
        assert(primary.has_channel(other) == old(app).has_channel(other));
    }
}

/// The receiver is a thread that was found and that the picker does not list.
pub open spec fn is_new_receiver(app: App, receiver: CollabReceiver, thread_id: Seq<char>) -> bool {
    &&& !receiver.not_found
    &&& receiver.thread_id matches Some(named)
    &&& named@ == thread_id
    &&& forall|i: int|
        0 <= i < app.agent_navigation@.len() ==> (#[trigger] app.agent_navigation@[i]).thread_id@
            != thread_id
}

proof fn new_receivers_are(
    app: App,
    receivers: Seq<CollabReceiver>,
    count: nat,
    thread_id: Seq<char>,
)
    requires
        count <= receivers.len(),
    ensures
        new_receivers(app, receivers, count).contains(thread_id) <==> exists|i: int|
            0 <= i < count && is_new_receiver(app, #[trigger] receivers[i], thread_id),
        new_receivers(app, receivers, count).no_duplicates(),
    decreases count,
{
    if count > 0 {
        new_receivers_are(app, receivers, (count - 1) as nat, thread_id);
        let before = new_receivers(app, receivers, (count - 1) as nat);
        let now = new_receivers(app, receivers, count);
        let receiver = receivers[count - 1];
        assert(app.picker_lists(thread_id) <==> !(forall|i: int|
            0 <= i < app.agent_navigation@.len() ==> (
            #[trigger] app.agent_navigation@[i]).thread_id@ != thread_id));
        if now != before {
            let added = receiver.thread_id->0@;
            assert(now == before.push(added));
            assert(now[now.len() - 1] == added);
            if before.contains(thread_id) {
                let k = choose|k: int| 0 <= k < before.len() && before[k] == thread_id;
                assert(now[k] == thread_id);
            }
            if now.contains(thread_id) && thread_id != added {
                let k = choose|k: int| 0 <= k < now.len() && now[k] == thread_id;
                assert(before[k] == thread_id);
            }
        }
    }
}

/// The picker gets every thread that a notification names as a receiver, that was found and that it
/// does not list, and each once. A notification of a sub-agent's activity adds none.
pub proof fn new_receivers_are_added_once(
    app: App,
    tells_activity: bool,
    receivers: Option<Vec<CollabReceiver>>,
    added: Vec<ThreadId>,
    thread_id: Seq<char>,
)
    requires
        call_ensures(
            App::cache_collab_receiver_threads_for_notification,
            (&app, tells_activity, &receivers),
            added,
        ),
    ensures
        text_views(added@).no_duplicates(),
        text_views(added@).contains(thread_id) <==> {
            &&& !tells_activity
            &&& receivers matches Some(list)
            &&& exists|i: int|
                0 <= i < list@.len() && is_new_receiver(app, #[trigger] list@[i], thread_id)
        },
        tells_activity || receivers is None ==> added@.len() == 0,
{
    assert(text_views(added@).len() == added@.len());
    if let Some(list) = receivers {
        new_receivers_are(app, list@, list@.len(), thread_id);
    }
}

/// An answer of the message history for a thread without a channel makes one for it, which is idle,
/// so that the answer is stored and not passed on.
pub proof fn an_answer_makes_a_channel(
    app: &mut App,
    thread_id: &str,
    log_id: u64,
    offset: u64,
    step: (bool, Option<String>),
)
    requires
        call_ensures(
            App::enqueue_thread_history_entry_response,
            (app, thread_id, log_id, offset),
            step,
        ),
        !old(app).has_channel(thread_id@),
        0 < old(app).thread_event_channel_capacity,
    ensures
        final(app).has_channel(thread_id@),
        final(app).channel(thread_id@).buffer@ == seq![
            ThreadBufferedEvent::HistoryEntryResponse { log_id, offset },
        ],
        !step.0,
        step.1 is None,
{
    let event = ThreadBufferedEvent::HistoryEntryResponse { log_id, offset };
    let ensured = choose|ensured: App|
        {
            let channel = ensured.channel(thread_id@);
            let after = final(app).channel(thread_id@);
            &&& #[trigger] old(app).channel_ensured(ensured, thread_id@)
            &&& ensured.rechannelled(*final(app), thread_id@, after)
            &&& after == (ThreadEventChannel { buffer: after.buffer, ..channel })
            &&& after.buffer@ == buffered(channel.buffer@, event, channel.capacity as nat)
            &&& step.0 == channel.active
            &&& step.1 == crate::enqueue::evicted_request(
                channel.buffer@,
                event,
                channel.capacity as nat,
            )
        };
    added_channel(*old(app), ensured, ensured.thread_event_channels@.last());
    found_channel(ensured.thread_event_channels@, thread_id@, 0);
    let after = final(app).channel(thread_id@);
    replaced_channel(ensured, *final(app), thread_id@, after);
    assert(after.buffer@ =~= seq![event]);
}

} // verus!
