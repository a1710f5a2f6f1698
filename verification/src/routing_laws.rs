//! Which thread is shown, where its events go, and what stays as it was.
use crate::routing::{
    agent_index, channel_index, channel_unmoved, AgentEntry, App, ServerNotification,
    SessionSelection, ThreadEventChannel, ThreadId,
};
use crate::text::lists_text;
use vstd::prelude::*;
use vstd::string::*;

verus! {

/// A channel that is found is the thread's, and the first that is.
pub proof fn found_channel(channels: Seq<ThreadEventChannel>, thread_id: Seq<char>, from: nat)
    requires
        from <= channels.len(),
    ensures
        ({
            let at = channel_index(channels, thread_id, from);
            &&& from <= at <= channels.len()
            &&& at < channels.len() ==> channels[at as int].thread_id@ == thread_id
            &&& forall|i: int| from <= i < at ==> (#[trigger] channels[i]).thread_id@ != thread_id
        }),
    decreases channels.len() - from,
{
    if from < channels.len() && channels[from as int].thread_id@ != thread_id {
        found_channel(channels, thread_id, from + 1);
    }
}

/// What is not taken off a list stays listed.
pub proof fn others_stay_listed(texts: Seq<String>, at: int, other: Seq<char>)
    requires
        0 <= at < texts.len(),
        texts[at]@ != other,
    ensures
        lists_text(texts.remove(at), other) == lists_text(texts, other),
{
    let after = texts.remove(at);
    if lists_text(texts, other) {
        let i = choose|i: int| 0 <= i < texts.len() && (#[trigger] texts[i])@ == other;
        let k = if i < at {
            i
        } else {
            i - 1
        };
        assert(after[k]@ == other);
    }
    if lists_text(after, other) {
        let k = choose|k: int| 0 <= k < after.len() && (#[trigger] after[k])@ == other;
        let i = if k < at {
            k
        } else {
            k + 1
        };
        assert(texts[i]@ == other);
    }
}

/// `after` knows of every other thread what `app` knows.
pub open spec fn others_kept(app: App, after: App, thread_id: Seq<char>) -> bool {
    forall|other: Seq<char>|
        other != thread_id ==> #[trigger] after.has_channel(other) == app.has_channel(other) && (
        app.has_channel(other) ==> after.channel(other) == app.channel(other))
}

/// A channel that takes the place of a thread's is found, and no other thread's is touched.
pub proof fn replaced_channel(
    app: App,
    after: App,
    thread_id: Seq<char>,
    channel: ThreadEventChannel,
)
    requires
        app.has_channel(thread_id),
        channel.thread_id@ == thread_id,
        after.thread_event_channels@ == app.thread_event_channels@.update(
            channel_index(app.thread_event_channels@, thread_id, 0) as int,
            channel,
        ),
    ensures
        after.has_channel(thread_id),
        after.channel(thread_id) == channel,
        others_kept(app, after, thread_id),
{
    let before = app.thread_event_channels@;
    let now = after.thread_event_channels@;
    found_channel(before, thread_id, 0);
    channel_unmoved(before, now, thread_id, 0);
    assert forall|other: Seq<char>| other != thread_id implies #[trigger] after.has_channel(other)
        == app.has_channel(other) && (app.has_channel(other) ==> after.channel(other)
        == app.channel(other)) by {
        channel_unmoved(before, now, other, 0);
        found_channel(before, other, 0);
    }
}

/// A channel that is added leaves the others as they were.
pub proof fn added_channel(app: App, after: App, made: ThreadEventChannel)
    requires
        !app.has_channel(made.thread_id@),
        after.thread_event_channels@ == app.thread_event_channels@.push(made),
    ensures
        after.has_channel(made.thread_id@),
        after.channel(made.thread_id@) == made,
        others_kept(app, after, made.thread_id@),
{
    let before = app.thread_event_channels@;
    let now = after.thread_event_channels@;
    pushed_index(before, made, made.thread_id@, 0);
    found_channel(before, made.thread_id@, 0);
    assert forall|other: Seq<char>| other != made.thread_id@ implies #[trigger] after.has_channel(
        other,
    ) == app.has_channel(other) && (app.has_channel(other) ==> after.channel(other)
        == app.channel(other)) by {
        pushed_index(before, made, other, 0);
        found_channel(before, other, 0);
    }
}

proof fn pushed_index(
    channels: Seq<ThreadEventChannel>,
    made: ThreadEventChannel,
    thread_id: Seq<char>,
    from: nat,
)
    requires
        from <= channels.len(),
    ensures
        channel_index(channels.push(made), thread_id, from) == (if channel_index(
            channels,
            thread_id,
            from,
        ) < channels.len() {
            channel_index(channels, thread_id, from)
        } else if made.thread_id@ == thread_id {
            channels.len()
        } else {
            channels.len() + 1
        }),
    decreases channels.len() - from,
{
    let grown = channels.push(made);
    if from < channels.len() {
        assert(grown[from as int] == channels[from as int]);
        pushed_index(channels, made, thread_id, from + 1);
        found_channel(channels, thread_id, from);
    } else {
        assert(grown[from as int] == made);
        reveal_with_fuel(channel_index, 2);
    }
}

/// A thread has a channel once it was ensured. Where it had one, nothing changes; a new one is idle
/// and empty, keeps its receiver, and holds as many events as new channels do. Other threads keep
/// theirs.
pub proof fn an_ensured_channel_is_there(app: &mut App, thread_id: &str, at: usize)
    requires
        call_ensures(App::ensure_thread_channel, (app, thread_id), at),
    ensures
        final(app).has_channel(thread_id@),
        final(app).thread_event_channels@[at as int] == final(app).channel(thread_id@),
        final(app).channel(thread_id@).thread_id@ == thread_id@,
        old(app).has_channel(thread_id@) ==> final(app).channel(thread_id@) == old(app).channel(
            thread_id@,
        ),
        !old(app).has_channel(thread_id@) ==> {
            let made = final(app).channel(thread_id@);
            &&& !made.active
            &&& made.receiver_parked
            &&& made.active_turn_id is None
            &&& made.session is None
            &&& made.buffer@.len() == 0
            &&& made.pending_requests@.len() == 0
            &&& !made.has_pending_approvals
            &&& made.side_parent_pending_status is None
            &&& made.capacity == old(app).thread_event_channel_capacity
        },
        others_kept(*old(app), *final(app), thread_id@),
        final(app).active_thread_id == old(app).active_thread_id,
        final(app).primary_thread_id == old(app).primary_thread_id,
{
    found_channel(final(app).thread_event_channels@, thread_id@, 0);
    if !old(app).has_channel(thread_id@) {
        added_channel(*old(app), *final(app), final(app).thread_event_channels@.last());
    }
}

/// Whether events of a thread are passed on is noted for that thread and for no other.
pub proof fn a_thread_is_set_active(app: &mut App, thread_id: &str, active: bool)
    requires
        call_ensures(App::set_thread_active, (app, thread_id, active), ()),
    ensures
        old(app).has_channel(thread_id@) ==> final(app).has_channel(thread_id@) && final(app).channel(thread_id@) == (ThreadEventChannel {
            active,
            ..old(app).channel(thread_id@)
        }),
        others_kept(*old(app), *final(app), thread_id@),
        final(app).active_thread_id == old(app).active_thread_id,
        final(app).active_receiver_held == old(app).active_receiver_held,
        final(app).primary_thread_id == old(app).primary_thread_id,
{
    found_channel(old(app).thread_event_channels@, thread_id@, 0);
    if old(app).has_channel(thread_id@) {
        replaced_channel(
            *old(app),
            *final(app),
            thread_id@,
            ThreadEventChannel { active, ..old(app).channel(thread_id@) },
        );
    }
}

/// A thread is shown only where none is. Its events are passed on from then, and its receiver goes
/// over from the channel to the application: it is held exactly where it was parked.
pub proof fn showing_a_thread_takes_its_receiver(app: &mut App, thread_id: &str)
    requires
        call_ensures(App::activate_thread_channel, (app, thread_id), ()),
    ensures
        old(app).active_thread_id is Some ==> *final(app) == *old(app),
        old(app).active_thread_id is None ==> {
            &&& final(app).active_thread_id matches Some(shown)
            &&& shown@ == thread_id@
            &&& final(app).active_receiver_held == (old(app).has_channel(thread_id@) && old(app).channel(thread_id@).receiver_parked)
            &&& final(app).has_channel(thread_id@) == old(app).has_channel(thread_id@)
            &&& old(app).has_channel(thread_id@) ==> final(app).channel(thread_id@) == (
            ThreadEventChannel {
                active: true,
                receiver_parked: false,
                ..old(app).channel(thread_id@)
            })
            &&& others_kept(*old(app), *final(app), thread_id@)
        },
        final(app).primary_thread_id == old(app).primary_thread_id,
{
    found_channel(old(app).thread_event_channels@, thread_id@, 0);
    if old(app).active_thread_id is None && old(app).has_channel(thread_id@) {
        replaced_channel(
            *old(app),
            *final(app),
            thread_id@,
            ThreadEventChannel {
                active: true,
                receiver_parked: false,
                ..old(app).channel(thread_id@)
            },
        );
    }
}

/// Putting the receiver of the shown thread back parks it in that thread's channel: no receiver is
/// lost, and the thread's events are no longer passed on. The thread stays the shown one.
pub proof fn a_stored_receiver_is_parked(app: &mut App, active: String)
    requires
        old(app).active_thread_id == Some(active),
        old(app).has_channel(active@),
        call_ensures(App::store_active_thread_receiver, (app,), ()),
    ensures
        !final(app).active_receiver_held,
        final(app).has_channel(active@),
        !final(app).channel(active@).active,
        final(app).channel(active@).receiver_parked == (old(app).channel(active@).receiver_parked
            || old(app).active_receiver_held),
        final(app).channel(active@).active_turn_id == old(app).channel(active@).active_turn_id,
        final(app).channel(active@).buffer == old(app).channel(active@).buffer,
        final(app).channel(active@).session == old(app).channel(active@).session,
        final(app).channel(active@).pending_requests == old(app).channel(active@).pending_requests,
        others_kept(*old(app), *final(app), active@),
        final(app).active_thread_id == old(app).active_thread_id,
{
    found_channel(old(app).thread_event_channels@, active@, 0);
    let channel = old(app).channel(active@);
    replaced_channel(
        *old(app),
        *final(app),
        active@,
        ThreadEventChannel {
            active: false,
            receiver_parked: channel.receiver_parked || old(app).active_receiver_held,
            ..channel
        },
    );
}

/// Where no thread is shown, or the shown one has no channel, nothing is put back.
pub proof fn nothing_is_stored_for_no_thread(app: &mut App)
    requires
        old(app).active_thread_id is None || !old(app).has_channel(old(app).active_thread_id->0@),
        call_ensures(App::store_active_thread_receiver, (app,), ()),
    ensures
        *final(app) == *old(app),
{
}

/// A receiver that is parked can be taken for a replay, once: it is then no longer there.
pub proof fn a_parked_receiver_is_taken_once(app: &mut App, thread_id: &str, taken: bool)
    requires
        call_ensures(App::activate_thread_for_replay, (app, thread_id), taken),
    ensures
        taken <==> old(app).has_channel(thread_id@) && old(app).channel(
            thread_id@,
        ).receiver_parked,
        taken ==> final(app).has_channel(thread_id@) && final(app).channel(thread_id@) == (
        ThreadEventChannel {
            active: true,
            receiver_parked: false,
            ..old(app).channel(thread_id@)
        }),
        !taken ==> *final(app) == *old(app),
        others_kept(*old(app), *final(app), thread_id@),
        final(app).active_thread_id == old(app).active_thread_id,
{
    found_channel(old(app).thread_event_channels@, thread_id@, 0);
    if taken {
        replaced_channel(
            *old(app),
            *final(app),
            thread_id@,
            ThreadEventChannel {
                active: true,
                receiver_parked: false,
                ..old(app).channel(thread_id@)
            },
        );
    }
}

/// Clearing shows no thread any more, and the thread that was shown has its events no longer passed
/// on; every other thread is left alone.
pub proof fn clearing_shows_no_thread(app: &mut App)
    requires
        call_ensures(App::clear_active_thread, (app,), ()),
    ensures
        final(app).active_thread_id is None,
        !final(app).active_receiver_held,
        final(app).primary_thread_id == old(app).primary_thread_id,
        old(app).active_thread_id matches Some(active) ==> {
            &&& old(app).has_channel(active@) ==> final(app).channel(active@) == (
            ThreadEventChannel { active: false, ..old(app).channel(active@) })
            &&& others_kept(*old(app), *final(app), active@)
        },
        old(app).active_thread_id is None ==> final(app).thread_event_channels@ == old(app).thread_event_channels@,
{
    if let Some(active) = old(app).active_thread_id {
        found_channel(old(app).thread_event_channels@, active@, 0);
        if old(app).has_channel(active@) {
            replaced_channel(
                *old(app),
                *final(app),
                active@,
                ThreadEventChannel { active: false, ..old(app).channel(active@) },
            );
        }
    }
}

/// The turn that was noted for a thread is the one that is known to run there, and no other
/// thread's turn is touched. A thread that is not known is not made up.
pub proof fn a_noted_turn_is_known(
    app: &mut App,
    after: App,
    thread_id: &str,
    turn_id: Option<String>,
    known: Option<String>,
)
    requires
        call_ensures(App::set_active_turn_id, (app, thread_id, turn_id), ()),
        after == *final(app),
        call_ensures(App::active_turn_id_for_thread, (&after, thread_id), known),
    ensures
        old(app).has_channel(thread_id@) ==> (known is Some <==> turn_id is Some) && (
        turn_id is Some ==> known->0@ == turn_id->0@),
        !old(app).has_channel(thread_id@) ==> known is None && *final(app) == *old(app),
        old(app).has_channel(thread_id@) ==> final(app).channel(thread_id@) == (
        ThreadEventChannel { active_turn_id: turn_id, ..old(app).channel(thread_id@) }),
        others_kept(*old(app), *final(app), thread_id@),
        final(app).active_thread_id == old(app).active_thread_id,
{
    found_channel(old(app).thread_event_channels@, thread_id@, 0);
    if old(app).has_channel(thread_id@) {
        replaced_channel(
            *old(app),
            *final(app),
            thread_id@,
            ThreadEventChannel { active_turn_id: turn_id, ..old(app).channel(thread_id@) },
        );
    }
}

/// The picker's entry for the thread.
pub open spec fn is_listed_as(app: App, thread_id: Seq<char>, at: int) -> bool {
    &&& 0 <= at < app.agent_navigation@.len()
    &&& app.agent_navigation@[at].thread_id@ == thread_id
    &&& forall|i: int|
        0 <= i < at ==> (#[trigger] app.agent_navigation@[i]).thread_id@ != thread_id
}

proof fn listed_agent(agents: Seq<AgentEntry>, thread_id: Seq<char>, from: nat)
    requires
        from <= agents.len(),
    ensures
        ({
            let at = agent_index(agents, thread_id, from);
            &&& from <= at <= agents.len()
            &&& at < agents.len() ==> agents[at as int].thread_id@ == thread_id
            &&& forall|i: int| from <= i < at ==> (#[trigger] agents[i]).thread_id@ != thread_id
        }),
    decreases agents.len() - from,
{
    if from < agents.len() && agents[from as int].thread_id@ != thread_id {
        listed_agent(agents, thread_id, from + 1);
    }
}

/// A thread that the picker names is called by that name, told apart by its own identifier where
/// the name is only the default.
pub proof fn a_thread_is_called_by_its_name(app: App, thread_id: &str, at: int, label: String)
    requires
        is_listed_as(app, thread_id@, at),
        call_ensures(App::thread_label, (&app, thread_id), label),
    ensures
        ({
            let name = app.agent_navigation@[at].item_name@;
            &&& name != "Agent"@ ==> label@ == name
            &&& name == "Agent"@ ==> name.is_prefix_of(label@) && exists|end: int|
                {
                    &&& 0 <= end <= 8 && end <= thread_id@.len()
                    &&& label@ == "Agent"@ + " ("@ + #[trigger] thread_id@.take(end) + ")"@
                    &&& end == 8 || end == thread_id@.len()
                }
        }),
{
    listed_agent(app.agent_navigation@, thread_id@, 0);
    let found = agent_index(app.agent_navigation@, thread_id@, 0) as int;
    if found < at {
        assert(app.agent_navigation@[found].thread_id@ == thread_id@);
    } else if at < found {
        assert(app.agent_navigation@[at].thread_id@ != thread_id@);
    }
    if app.agent_navigation@[at].item_name@ == "Agent"@ {
        label_ends(label@, "Agent"@ + " ("@, thread_id@);
        assert("Agent"@.is_prefix_of(label@));
    }
}

proof fn label_ends(label: Seq<char>, head: Seq<char>, thread_id: Seq<char>)
    requires
        label == head + crate::routing::short_id(thread_id) + ")"@,
    ensures
        exists|end: int|
            {
                &&& 0 <= end <= 8 && end <= thread_id.len()
                &&& label == head + #[trigger] thread_id.take(end) + ")"@
                &&& end == 8 || end == thread_id.len()
            },
{
    let end = if thread_id.len() <= 8 {
        thread_id.len() as int
    } else {
        8
    };
    assert(thread_id.take(end) =~= crate::routing::short_id(thread_id));
}

/// A thread that the picker does not name is the main thread where it is the primary one, and else
/// an agent that is told apart by its own identifier.
pub proof fn an_unnamed_thread_is_told_apart(app: App, thread_id: &str, label: String)
    requires
        forall|i: int|
            0 <= i < app.agent_navigation@.len() ==> (
            #[trigger] app.agent_navigation@[i]).thread_id@ != thread_id@,
        call_ensures(App::thread_label, (&app, thread_id), label),
    ensures
        (app.primary_thread_id matches Some(primary) && primary@ == thread_id@) ==> label@
            == "Main [default]"@,
        !(app.primary_thread_id matches Some(primary) && primary@ == thread_id@) ==> exists|
            end: int,
        |
            {
                &&& 0 <= end <= 8 && end <= thread_id@.len()
                &&& label@ == "Agent ("@ + #[trigger] thread_id@.take(end) + ")"@
                &&& end == 8 || end == thread_id@.len()
            },
{
    listed_agent(app.agent_navigation@, thread_id@, 0);
    if !(app.primary_thread_id matches Some(primary) && primary@ == thread_id@) {
        label_ends(label@, "Agent ("@, thread_id@);
    }
}

/// What is on screen is the active thread, and the widget's own where none is active; the footer
/// label depends on it and on the primary thread.
pub proof fn the_active_thread_is_on_screen(
    app: App,
    shown: Option<ThreadId>,
    threads: (Option<ThreadId>, Option<ThreadId>),
)
    requires
        call_ensures(App::current_displayed_thread_id, (&app,), shown),
        call_ensures(App::sync_active_agent_label, (&app,), threads),
    ensures
        app.active_thread_id is Some ==> shown == app.active_thread_id,
        app.active_thread_id is None ==> shown == app.chat_widget.thread_id,
        threads.0 == shown,
        threads.1 == app.primary_thread_id,
{
}

/// Asking to resume the thread that is shown is answered by its label, and only then.
pub proof fn the_shown_thread_is_not_resumed(
    app: App,
    thread_id: &str,
    display_label: &str,
    info: Option<String>,
)
    requires
        call_ensures(App::ignore_same_thread_resume, (&app, thread_id, display_label), info),
    ensures
        info is Some <==> (app.active_thread_id matches Some(active) && active@ == thread_id@),
        info is Some ==> info->0@ == "Already viewing "@ + display_label@ + "."@,
{
}

/// An operation is noted for the active thread, and only where it can change what is replayed.
pub proof fn only_replayed_operations_are_noted(
    app: App,
    changes_replay: bool,
    noted: Option<ThreadId>,
)
    requires
        call_ensures(App::note_active_thread_outbound_op, (&app, changes_replay), noted),
    ensures
        !changes_replay ==> noted is None,
        changes_replay ==> noted == app.active_thread_id,
{
}

/// A listener that is forgotten was there, and one fewer is left; no other one is touched.
pub proof fn one_listener_is_stopped(app: &mut App, thread_id: &str, aborted: bool)
    requires
        call_ensures(App::abort_thread_event_listener, (app, thread_id), aborted),
    ensures
        aborted == lists_text(old(app).thread_event_listener_tasks@, thread_id@),
        final(app).thread_event_listener_tasks@.len() == old(app).thread_event_listener_tasks@.len() - (if aborted {
            1int
        } else {
            0
        }),
        forall|other: Seq<char>|
            other != thread_id@ ==> #[trigger] lists_text(
                final(app).thread_event_listener_tasks@,
                other,
            ) == lists_text(old(app).thread_event_listener_tasks@, other),
        final(app).active_thread_id == old(app).active_thread_id,
{
    let before = old(app).thread_event_listener_tasks@;
    let after = final(app).thread_event_listener_tasks@;
    if aborted {
        let at = choose|i: int|
            0 <= i < before.len() && (#[trigger] before[i])@ == thread_id@ && after
                == before.remove(i);
        assert forall|other: Seq<char>| other != thread_id@ implies #[trigger] lists_text(
            after,
            other,
        ) == lists_text(before, other) by {
            others_stay_listed(before, at, other);
        }
    }
}

/// All listeners are stopped, and each is handed out to be.
pub proof fn all_listeners_are_stopped(app: &mut App, aborted: Vec<ThreadId>)
    requires
        call_ensures(App::abort_all_thread_event_listeners, (app,), aborted),
    ensures
        aborted@ == old(app).thread_event_listener_tasks@,
        final(app).thread_event_listener_tasks@.len() == 0,
        final(app).thread_event_channels == old(app).thread_event_channels,
        final(app).active_thread_id == old(app).active_thread_id,
{
}

/// The primary thread takes over for another active thread that closed without being asked to, and
/// never for a shutdown that the user asked for.
pub proof fn a_requested_exit_is_not_taken_over(
    app: App,
    notification: ServerNotification,
    target: Option<(ThreadId, ThreadId)>,
    exits: bool,
)
    requires
        call_ensures(App::active_non_primary_shutdown_target, (&app, &notification), target),
        call_ensures(App::is_pending_shutdown_exit, (&app, &notification), exits),
    ensures
        target matches Some((closed, primary)) ==> app.active_thread_id == Some(closed)
            && app.primary_thread_id == Some(primary) && closed@ != primary@
            && notification is ThreadClosed,
        exits && app.active_thread_id is Some ==> target is None,
        notification is ThreadClosed && !exits && app.active_thread_id is Some
            && app.primary_thread_id is Some && app.active_thread_id->0@
            != app.primary_thread_id->0@ ==> target is Some,
        exits ==> notification is ThreadClosed,
        app.active_thread_id is Some ==> (exits <==> notification is ThreadClosed && (
        app.pending_shutdown_exit_thread_id matches Some(asked) && asked@
            == app.active_thread_id->0@)),
{
}

/// A stored session is refreshed unless it is only replayed or is that of a side conversation, and
/// then exactly where it is missing, names no model, or has no rollout.
pub proof fn an_incomplete_session_is_refreshed(
    app: App,
    thread_id: &str,
    is_replay_only: bool,
    session: Option<(String, bool)>,
    refresh: bool,
)
    requires
        call_ensures(
            App::should_refresh_snapshot_session,
            (&app, thread_id, is_replay_only, &session),
            refresh,
        ),
    ensures
        is_replay_only || lists_text(app.side_threads@, thread_id@) ==> !refresh,
        !is_replay_only && !lists_text(app.side_threads@, thread_id@) ==> match session {
            None => refresh,
            Some((model, has_rollout)) => {
                &&& !has_rollout ==> refresh
                &&& model@.len() == 0 ==> refresh
                &&& (has_rollout && exists|i: int|
                    0 <= i < model@.len() && !crate::text::is_white_space(
                        #[trigger] model@[i],
                    )) ==> !refresh
            },
        },
{
}

/// A start-up that resumes or forks a session does not wait for one to be made; only a resumed one
/// without anything to send asks about a paused goal.
pub proof fn a_resumed_start_does_not_wait(
    selection: SessionSelection,
    prompt: Option<String>,
    images: Vec<String>,
    waits: bool,
    asks: bool,
)
    requires
        call_ensures(App::should_wait_for_initial_session, (&selection,), waits),
        call_ensures(
            App::should_prompt_for_paused_goal_after_startup_resume,
            (&selection, &prompt, &images),
            asks,
        ),
    ensures
        waits <==> !(selection is Resume) && !(selection is Fork),
        asks ==> selection is Resume && prompt is None && images@.len() == 0,
        selection is Resume && prompt is None && images@.len() == 0 ==> asks,
        !(asks && waits),
{
}

/// Events of the active thread are handled where there is a receiver, and not while the first
/// session is awaited; that wait ends once the primary thread is known.
pub proof fn events_wait_for_the_first_session(
    waiting: bool,
    held: bool,
    primary: Option<ThreadId>,
    handles: bool,
    stops: bool,
)
    requires
        call_ensures(App::should_handle_active_thread_events, (waiting, held), handles),
        call_ensures(App::should_stop_waiting_for_initial_session, (waiting, &primary), stops),
    ensures
        handles <==> held && !waiting,
        stops <==> waiting && primary is Some,
        !(handles && stops),
{
}

/// The place of a thread is that of the first channel that is its own, and behind the last one
/// where it has none.
pub proof fn a_channel_is_found_by_its_thread(app: App, thread_id: &str, at: usize)
    requires
        call_ensures(App::channel_position, (&app, thread_id), at),
    ensures
        at <= app.thread_event_channels@.len(),
        at < app.thread_event_channels@.len() ==> app.thread_event_channels@[at as int].thread_id@
            == thread_id@,
        forall|i: int|
            0 <= i < at ==> (#[trigger] app.thread_event_channels@[i]).thread_id@ != thread_id@,
{
    found_channel(app.thread_event_channels@, thread_id@, 0);
}

/// A thread is named only where there is one, and by its own name.
pub proof fn a_thread_is_named_by_its_name(shown: Option<ThreadId>, thread_id: &str, named: bool)
    requires
        call_ensures(crate::routing::names_thread, (&shown, thread_id), named),
    ensures
        named <==> (shown matches Some(name) && name@ == thread_id@),
{
}

} // verus!
