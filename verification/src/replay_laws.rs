//! How a stored thread is shown again, and what events of the shown thread lead to.
use crate::replay::{
    event_steps, initial_replay_steps, replay_closing, replay_opening, surviving_events,
    ActiveEventStep, EventHandling, FailOverNotice, ReplayStep, RollbackStep, SnapshotEvent,
    ThreadEventSnapshot, ThreadRollbackOrigin,
};
use crate::routing::{
    channel_index, channel_unmoved, App, ServerNotification, Thread, ThreadBufferedEvent,
    ThreadEventChannel, ThreadId, ThreadSessionState, Turn,
};
use crate::routing_laws::found_channel;
use crate::text::lists_text;
use vstd::prelude::*;
use vstd::string::*;

verus! {

/// The step is taken in the course of `steps`.
pub open spec fn taken(steps: Seq<ReplayStep>, step: ReplayStep) -> bool {
    exists|i: int| 0 <= i < steps.len() && #[trigger] steps[i] == step
}

/// The step is taken once at most.
pub open spec fn taken_once(steps: Seq<ReplayStep>, step: ReplayStep) -> bool {
    forall|i: int, j: int|
        0 <= i < steps.len() && 0 <= j < steps.len() && #[trigger] steps[i] == step
            && #[trigger] steps[j] == step ==> i == j
}

/// Wherever both steps are taken, the first comes before the second.
pub open spec fn comes_before(steps: Seq<ReplayStep>, first: ReplayStep, second: ReplayStep) -> bool {
    forall|i: int, j: int|
        0 <= i < steps.len() && 0 <= j < steps.len() && #[trigger] steps[i] == first
            && #[trigger] steps[j] == second ==> i < j
}

/// The step shows something that was stored.
pub open spec fn shows_stored(step: ReplayStep) -> bool {
    step is ReplayTurns || step is ReplayEvent
}

/// The stored events that are shown: all of them, but for notices while a request waits.
pub open spec fn shown_events(snapshot: ThreadEventSnapshot) -> Seq<SnapshotEvent> {
    snapshot.events@.filter(
        |event: SnapshotEvent| !(snapshot.has_pending_interactive_request && event.is_notice),
    )
}

/// The events, each as the step that shows it.
pub open spec fn as_steps(events: Seq<SnapshotEvent>) -> Seq<ReplayStep> {
    events.map_values(|event: SnapshotEvent| ReplayStep::ReplayEvent(event.handle))
}

proof fn event_steps_filter(snapshot: ThreadEventSnapshot, count: nat)
    requires
        count <= snapshot.events@.len(),
    ensures
        event_steps(snapshot.events@, snapshot.has_pending_interactive_request, count) == as_steps(
            snapshot.events@.take(count as int).filter(
                |event: SnapshotEvent|
                    !(snapshot.has_pending_interactive_request && event.is_notice),
            ),
        ),
    decreases count,
{
    let pred = |event: SnapshotEvent|
        !(snapshot.has_pending_interactive_request && event.is_notice);
    reveal(Seq::filter);
    let some = snapshot.events@.take(count as int);
    if count == 0 {
        assert(event_steps(snapshot.events@, snapshot.has_pending_interactive_request, 0)
            =~= as_steps(some.filter(pred)));
    } else {
        event_steps_filter(snapshot, (count - 1) as nat);
        assert(some.drop_last() =~= snapshot.events@.take(count - 1));
        assert(some.last() == snapshot.events@[count - 1]);
        assert(event_steps(snapshot.events@, snapshot.has_pending_interactive_request, count)
            =~= as_steps(some.filter(pred)));
    }
}

/// What comes before the events in a replay.
spec fn is_opening(step: ReplayStep) -> bool {
    match step {
        ReplayStep::RefreshMcpStartupExpectedServers
        | ReplayStep::BeginBuffer
        | ReplayStep::SetPlanModeReasoningEffort
        | ReplayStep::HandleSideSession
        | ReplayStep::HandleSessionQuietly
        | ReplayStep::HandleSession
        | ReplayStep::RestoreInputState
        | ReplayStep::ResolveNotifiedSubmissions
        | ReplayStep::ReplayTurns => true,
        ReplayStep::SuppressQueueAutosend(suppressed) => suppressed,
        _ => false,
    }
}

/// What comes after the events in a replay.
spec fn is_closing(step: ReplayStep) -> bool {
    match step {
        ReplayStep::EndBuffer
        | ReplayStep::SubmitInitialMessage
        | ReplayStep::SendNextQueuedInput
        | ReplayStep::RefreshStatusLine => true,
        ReplayStep::SuppressQueueAutosend(suppressed) => !suppressed,
        ReplayStep::SuppressInitialMessage(suppressed) => !suppressed,
        _ => false,
    }
}

proof fn parts_of_a_replay(
    app: App,
    snapshot: ThreadEventSnapshot,
    resume: bool,
    steps: Vec<ReplayStep>,
) -> (parts: (Seq<ReplayStep>, Seq<ReplayStep>))
    requires
        call_ensures(App::replay_thread_snapshot, (&app, &snapshot, resume), steps),
    ensures
        ({
            let buffers = snapshot.turns@.len() > 0 || snapshot.events@.len() > 0;
            &&& parts.0 == replay_opening(app, snapshot, buffers)
            &&& parts.1 == replay_closing(buffers, resume)
        }),
        steps@ == parts.0 + as_steps(shown_events(snapshot)) + parts.1,
        forall|i: int| 0 <= i < parts.0.len() ==> is_opening(#[trigger] parts.0[i]),
        forall|i: int| 0 <= i < parts.1.len() ==> is_closing(#[trigger] parts.1[i]),
{
    let buffers = snapshot.turns@.len() > 0 || snapshot.events@.len() > 0;
    let opening = replay_opening(app, snapshot, buffers);
    let closing = replay_closing(buffers, resume);
    event_steps_filter(snapshot, snapshot.events@.len());
    assert(snapshot.events@.take(snapshot.events@.len() as int) =~= snapshot.events@);
    assert(steps@ =~= opening + as_steps(shown_events(snapshot)) + closing);
    (opening, closing)
}

/// Queued input is sent at the end of a replay exactly where the queue is to be resumed, once, and
/// only after the queue is no longer held back.
pub proof fn queued_input_is_sent_only_where_resumed(
    app: App,
    snapshot: ThreadEventSnapshot,
    resume: bool,
    steps: Vec<ReplayStep>,
)
    requires
        call_ensures(App::replay_thread_snapshot, (&app, &snapshot, resume), steps),
    ensures
        taken(steps@, ReplayStep::SendNextQueuedInput) <==> resume,
        taken_once(steps@, ReplayStep::SendNextQueuedInput),
        taken(steps@, ReplayStep::SuppressQueueAutosend(false)),
        comes_before(
            steps@,
            ReplayStep::SuppressQueueAutosend(false),
            ReplayStep::SendNextQueuedInput,
        ),
{
    let parts = parts_of_a_replay(app, snapshot, resume, steps);
    let events = as_steps(shown_events(snapshot));
    let at = parts.0.len() + events.len();
    let buffers = snapshot.turns@.len() > 0 || snapshot.events@.len() > 0;
    let skip: int = if buffers {
        1
    } else {
        0
    };
    assert(parts.1[skip] == ReplayStep::SuppressQueueAutosend(false));
    assert(steps@[at + skip] == parts.1[skip]);
    if resume {
        assert(parts.1[skip + 3] == ReplayStep::SendNextQueuedInput);
        assert(steps@[at + skip + 3] == parts.1[skip + 3]);
    }
    assert forall|i: int| 0 <= i < steps@.len() implies (#[trigger] steps@[i]
        == ReplayStep::SendNextQueuedInput ==> resume && i == at + skip + 3) && (steps@[i]
        == ReplayStep::SuppressQueueAutosend(false) ==> i == at + skip) by {
        step_is_of(parts.0, events, parts.1, i);
        if i >= at {
            assert(steps@[i] == parts.1[i - at]);
        } else if i < parts.0.len() {
            assert(steps@[i] == parts.0[i]);
        } else {
            assert(steps@[i] == events[i - parts.0.len()]);
        }
    }
}

/// A step of three lists in a row is one of them.
proof fn step_is_of(a: Seq<ReplayStep>, b: Seq<ReplayStep>, c: Seq<ReplayStep>, i: int)
    requires
        0 <= i < (a + b + c).len(),
    ensures
        i < a.len() ==> (a + b + c)[i] == a[i],
        a.len() <= i < a.len() + b.len() ==> (a + b + c)[i] == b[i - a.len()],
        a.len() + b.len() <= i ==> (a + b + c)[i] == c[i - a.len() - b.len()],
{
}

/// While a stored thread is shown again no queued input is sent: the queue is held back before the
/// first turn or event is shown, and let go after the last one. What is shown stands between the
/// start and the end of the buffer, and the first message goes out only after that, once.
pub proof fn nothing_is_sent_during_a_replay(
    app: App,
    snapshot: ThreadEventSnapshot,
    resume: bool,
    steps: Vec<ReplayStep>,
    shown: int,
    other: int,
)
    requires
        call_ensures(App::replay_thread_snapshot, (&app, &snapshot, resume), steps),
        0 <= shown < steps@.len(),
        0 <= other < steps@.len(),
        shows_stored(steps@[shown]),
    ensures
        steps@[other] == ReplayStep::SuppressQueueAutosend(true) ==> other < shown,
        steps@[other] == ReplayStep::SuppressQueueAutosend(false) ==> shown < other,
        steps@[other] == ReplayStep::BeginBuffer ==> other < shown,
        steps@[other] == ReplayStep::EndBuffer ==> shown < other,
        steps@[other] == ReplayStep::RestoreInputState ==> other < shown,
        steps@[other] == ReplayStep::ResolveNotifiedSubmissions ==> other < shown,
        steps@[other] == ReplayStep::SubmitInitialMessage ==> shown < other,
        steps@[other] == ReplayStep::SendNextQueuedInput ==> shown < other,
        taken(steps@, ReplayStep::BeginBuffer),
        taken(steps@, ReplayStep::EndBuffer),
        taken(steps@, ReplayStep::SuppressQueueAutosend(true)),
        taken(steps@, ReplayStep::SuppressQueueAutosend(false)),
{
    let parts = parts_of_a_replay(app, snapshot, resume, steps);
    let events = as_steps(shown_events(snapshot));
    let a = parts.0;
    let c = parts.1;
    let at = a.len() + events.len();
    step_is_of(a, events, c, shown);
    step_is_of(a, events, c, other);
    if shown < a.len() {
        assert(is_opening(a[shown]));
        turns_come_last(app, snapshot, shown);
    } else if shown >= at {
        assert(is_closing(c[shown - at]));
    } else {
        assert(shown_events(snapshot).len() > 0);
        shown_are_stored(snapshot);
    }
    if other < a.len() {
        assert(is_opening(a[other]));
    } else if other >= at {
        assert(is_closing(c[other - at]));
    }
    assert(snapshot.turns@.len() > 0 || snapshot.events@.len() > 0);
    assert(a[1] == ReplayStep::BeginBuffer);
    step_is_of(a, events, c, 1);
    assert(c[0] == ReplayStep::EndBuffer);
    step_is_of(a, events, c, at as int);
    assert(c[1] == ReplayStep::SuppressQueueAutosend(false));
    step_is_of(a, events, c, at as int + 1);
    let held = held_back(app, snapshot);
    step_is_of(a, events, c, held);
}

proof fn shown_are_stored(snapshot: ThreadEventSnapshot)
    ensures
        shown_events(snapshot).len() > 0 ==> snapshot.events@.len() > 0,
{
    reveal(Seq::filter);
}

/// Where the queue is held back.
proof fn held_back(app: App, snapshot: ThreadEventSnapshot) -> (at: int)
    ensures
        ({
            let buffers = snapshot.turns@.len() > 0 || snapshot.events@.len() > 0;
            let opening = replay_opening(app, snapshot, buffers);
            &&& 0 <= at < opening.len()
            &&& opening[at] == ReplayStep::SuppressQueueAutosend(true)
        }),
{
    let buffers = snapshot.turns@.len() > 0 || snapshot.events@.len() > 0;
    let opening = replay_opening(app, snapshot, buffers);
    let head = crate::replay::step_if(true, ReplayStep::RefreshMcpStartupExpectedServers)
        + crate::replay::step_if(buffers, ReplayStep::BeginBuffer) + crate::replay::session_steps(
        app,
        snapshot,
    );
    assert(opening[head.len() as int] == ReplayStep::SuppressQueueAutosend(true));
    head.len() as int
}

/// The turns are shown after all else that comes before the events.
proof fn turns_come_last(app: App, snapshot: ThreadEventSnapshot, at: int)
    requires
        ({
            let buffers = snapshot.turns@.len() > 0 || snapshot.events@.len() > 0;
            let opening = replay_opening(app, snapshot, buffers);
            0 <= at < opening.len() && opening[at] == ReplayStep::ReplayTurns
        }),
    ensures
        ({
            let buffers = snapshot.turns@.len() > 0 || snapshot.events@.len() > 0;
            let opening = replay_opening(app, snapshot, buffers);
            &&& at == opening.len() - 1
            &&& snapshot.turns@.len() > 0
        }),
{
}

/// Whether a step that shows no event is taken does not depend on the events.
proof fn taken_around(
    a: Seq<ReplayStep>,
    events: Seq<SnapshotEvent>,
    c: Seq<ReplayStep>,
    step: ReplayStep,
)
    requires
        !(step is ReplayEvent),
    ensures
        taken(a + as_steps(events) + c, step) == (taken(a, step) || taken(c, step)),
{
    let b = as_steps(events);
    let steps = a + b + c;
    if taken(steps, step) {
        let i = choose|i: int| 0 <= i < steps.len() && #[trigger] steps[i] == step;
        step_is_of(a, b, c, i);
    }
    if taken(a, step) {
        let i = choose|i: int| 0 <= i < a.len() && #[trigger] a[i] == step;
        step_is_of(a, b, c, i);
        assert(steps[i] == step);
    }
    if taken(c, step) {
        let i = choose|i: int| 0 <= i < c.len() && #[trigger] c[i] == step;
        step_is_of(a, b, c, a.len() + b.len() + i);
        assert(steps[a.len() + b.len() + i] == step);
    }
}

/// A stored thread is shown again as it was stored: its turns, where it has any, and then its
/// events, in their order, but for notices while a request waits for the user.
pub proof fn a_replay_shows_what_was_stored(
    app: App,
    snapshot: ThreadEventSnapshot,
    resume: bool,
    steps: Vec<ReplayStep>,
)
    requires
        call_ensures(App::replay_thread_snapshot, (&app, &snapshot, resume), steps),
    ensures
        taken(steps@, ReplayStep::ReplayTurns) <==> snapshot.turns@.len() > 0,
        exists|before: Seq<ReplayStep>, after: Seq<ReplayStep>|
            {
                &&& steps@ == #[trigger] (before + as_steps(shown_events(snapshot))) + #[trigger] (
                after + Seq::<ReplayStep>::empty())
                &&& forall|i: int| 0 <= i < before.len() ==> !(#[trigger] before[i] is ReplayEvent)
                &&& forall|i: int| 0 <= i < after.len() ==> !shows_stored(#[trigger] after[i])
            },
{
    let parts = parts_of_a_replay(app, snapshot, resume, steps);
    let a = parts.0;
    let c = parts.1;
    taken_around(a, shown_events(snapshot), c, ReplayStep::ReplayTurns);
    opening_takes(app, snapshot);
    assert(steps@ =~= (a + as_steps(shown_events(snapshot))) + (c + Seq::<ReplayStep>::empty()));
    assert forall|i: int| 0 <= i < a.len() implies !(#[trigger] a[i] is ReplayEvent) by {
        assert(is_opening(a[i]));
    }
    assert forall|i: int| 0 <= i < c.len() implies !shows_stored(#[trigger] c[i]) by {
        assert(is_closing(c[i]));
    }
}

/// The session of a stored thread is taken up where there is one: as that of a side conversation
/// where it is one, quietly where a request waits for the user, and else openly. The effort of the
/// plan mode is set unless the session runs at the highest effort.
pub proof fn a_replay_takes_the_session_up(
    app: App,
    snapshot: ThreadEventSnapshot,
    resume: bool,
    steps: Vec<ReplayStep>,
)
    requires
        call_ensures(App::replay_thread_snapshot, (&app, &snapshot, resume), steps),
    ensures
        taken(steps@, ReplayStep::HandleSideSession) <==> (snapshot.session matches Some(session)
            && lists_text(app.side_threads@, session.thread_id@)),
        taken(steps@, ReplayStep::HandleSessionQuietly) <==> (snapshot.session matches Some(
            session,
        ) && !lists_text(app.side_threads@, session.thread_id@)
            && snapshot.has_pending_interactive_request),
        taken(steps@, ReplayStep::HandleSession) <==> (snapshot.session matches Some(session)
            && !lists_text(app.side_threads@, session.thread_id@)
            && !snapshot.has_pending_interactive_request),
        taken(steps@, ReplayStep::SetPlanModeReasoningEffort) <==> (
        snapshot.session matches Some(session) && !session.ultra_effort),
{
    let parts = parts_of_a_replay(app, snapshot, resume, steps);
    let events = shown_events(snapshot);
    taken_around(parts.0, events, parts.1, ReplayStep::HandleSideSession);
    taken_around(parts.0, events, parts.1, ReplayStep::HandleSessionQuietly);
    taken_around(parts.0, events, parts.1, ReplayStep::HandleSession);
    taken_around(parts.0, events, parts.1, ReplayStep::SetPlanModeReasoningEffort);
    opening_takes(app, snapshot);
}

/// Every replay restores the input and settles submissions that were told of, lets the first
/// message go, once and after it is no longer held back, and ends with the status line.
pub proof fn a_replay_lets_the_first_message_go(
    app: App,
    snapshot: ThreadEventSnapshot,
    resume: bool,
    steps: Vec<ReplayStep>,
)
    requires
        call_ensures(App::replay_thread_snapshot, (&app, &snapshot, resume), steps),
    ensures
        steps@.first() == ReplayStep::RefreshMcpStartupExpectedServers,
        steps@.last() == ReplayStep::RefreshStatusLine,
        taken(steps@, ReplayStep::RestoreInputState),
        taken(steps@, ReplayStep::ResolveNotifiedSubmissions),
        taken(steps@, ReplayStep::SubmitInitialMessage),
        taken_once(steps@, ReplayStep::SubmitInitialMessage),
        taken(steps@, ReplayStep::SuppressInitialMessage(false)),
        comes_before(
            steps@,
            ReplayStep::SuppressInitialMessage(false),
            ReplayStep::SubmitInitialMessage,
        ),
{
    let parts = parts_of_a_replay(app, snapshot, resume, steps);
    let events = as_steps(shown_events(snapshot));
    let a = parts.0;
    let c = parts.1;
    let at = a.len() + events.len();
    let buffers = snapshot.turns@.len() > 0 || snapshot.events@.len() > 0;
    taken_around(a, shown_events(snapshot), c, ReplayStep::RestoreInputState);
    taken_around(a, shown_events(snapshot), c, ReplayStep::ResolveNotifiedSubmissions);
    opening_takes(app, snapshot);
    let skip: int = if buffers {
        1
    } else {
        0
    };
    assert(c[skip + 1] == ReplayStep::SuppressInitialMessage(false));
    assert(c[skip + 2] == ReplayStep::SubmitInitialMessage);
    assert(steps@[at + skip + 1] == c[skip + 1]);
    assert(steps@[at + skip + 2] == c[skip + 2]);
    assert(c.last() == ReplayStep::RefreshStatusLine);
    assert(a[0] == ReplayStep::RefreshMcpStartupExpectedServers);
    step_is_of(a, events, c, 0);
    step_is_of(a, events, c, steps@.len() - 1);
    assert forall|i: int| 0 <= i < steps@.len() implies (#[trigger] steps@[i]
        == ReplayStep::SubmitInitialMessage ==> i == at + skip + 2) && (steps@[i]
        == ReplayStep::SuppressInitialMessage(false) ==> i == at + skip + 1) by {
        step_is_of(a, events, c, i);
        if i < a.len() {
            assert(is_opening(a[i]));
        }
    }
}

/// Which steps come before the events.
proof fn opening_takes(app: App, snapshot: ThreadEventSnapshot)
    ensures
        ({
            let buffers = snapshot.turns@.len() > 0 || snapshot.events@.len() > 0;
            let opening = replay_opening(app, snapshot, buffers);
            &&& taken(opening, ReplayStep::ReplayTurns) <==> snapshot.turns@.len() > 0
            &&& taken(opening, ReplayStep::RestoreInputState)
            &&& taken(opening, ReplayStep::ResolveNotifiedSubmissions)
            &&& taken(opening, ReplayStep::HandleSideSession) <==> (
            snapshot.session matches Some(session) && lists_text(
                app.side_threads@,
                session.thread_id@,
            ))
            &&& taken(opening, ReplayStep::HandleSessionQuietly) <==> (
            snapshot.session matches Some(session) && !lists_text(
                app.side_threads@,
                session.thread_id@,
            ) && snapshot.has_pending_interactive_request)
            &&& taken(opening, ReplayStep::HandleSession) <==> (
            snapshot.session matches Some(session) && !lists_text(
                app.side_threads@,
                session.thread_id@,
            ) && !snapshot.has_pending_interactive_request)
            &&& taken(opening, ReplayStep::SetPlanModeReasoningEffort) <==> (
            snapshot.session matches Some(session) && !session.ultra_effort)
        }),
{
    let buffers = snapshot.turns@.len() > 0 || snapshot.events@.len() > 0;
    let opening = replay_opening(app, snapshot, buffers);
    let session = crate::replay::session_steps(app, snapshot);
    let start: int = if buffers {
        2
    } else {
        1
    };
    let end = start + session.len();
    assert(opening[end] == ReplayStep::SuppressQueueAutosend(true));
    assert(opening[end + 1] == ReplayStep::RestoreInputState);
    assert(opening[end + 2] == ReplayStep::ResolveNotifiedSubmissions);
    if snapshot.turns@.len() > 0 {
        assert(opening[end + 3] == ReplayStep::ReplayTurns);
    }
    if session.len() > 0 {
        assert(opening[end - 1] == session[session.len() - 1]);
        if session.len() > 1 {
            assert(opening[start] == session[0]);
        }
    }
    assert forall|i: int| start <= i < end implies #[trigger] opening[i] == session[i - start] by {}
}

/// A primary session is taken up before its turns and the events that waited for it, which are
/// shown in the order in which they came; the first message is held back meanwhile and goes out at
/// the very end, once.
pub proof fn the_first_message_waits_for_the_primary_session(
    has_turns: bool,
    waited: usize,
    steps: Vec<ReplayStep>,
)
    requires
        call_ensures(initial_replay_steps, (has_turns, waited), steps),
    ensures
        steps@.first() == ReplayStep::SuppressInitialMessage(true),
        steps@[1] == ReplayStep::HandleSession,
        steps@.last() == ReplayStep::SubmitInitialMessage,
        steps@[steps@.len() - 2] == ReplayStep::SuppressInitialMessage(false),
        taken_once(steps@, ReplayStep::SubmitInitialMessage),
        taken(steps@, ReplayStep::ReplayTurns),
        taken(steps@, ReplayStep::BeginBuffer) <==> has_turns,
        taken(steps@, ReplayStep::EndBuffer) <==> has_turns,
        comes_before(steps@, ReplayStep::BeginBuffer, ReplayStep::ReplayTurns),
        comes_before(steps@, ReplayStep::ReplayTurns, ReplayStep::EndBuffer),
        forall|i: int|
            0 <= i < waited ==> #[trigger] steps@[steps@.len() - 2 - waited + i]
                == ReplayStep::ReplayEvent(i as u64),
        forall|i: int|
            0 <= i < steps@.len() - 2 - waited ==> !(#[trigger] steps@[i] is ReplayEvent),
{
    let base: int = if has_turns {
        5
    } else {
        3
    };
    assert(steps@.len() == base + waited + 2);
    if has_turns {
        assert(steps@[2] == ReplayStep::BeginBuffer);
        assert(steps@[3] == ReplayStep::ReplayTurns);
        assert(steps@[4] == ReplayStep::EndBuffer);
    } else {
        assert(steps@[2] == ReplayStep::ReplayTurns);
    }
    assert forall|i: int| 0 <= i < waited implies #[trigger] steps@[base + i]
        == ReplayStep::ReplayEvent(i as u64) by {}
}

/// A refreshed session takes the place of the stored one, with its turns; of the stored events
/// those stay, in order, that say something more. The thread's channel has the session too, and
/// nothing else changes.
pub proof fn a_refreshed_session_replaces_the_stored_one(
    app: &mut App,
    thread_id: &str,
    session: ThreadSessionState,
    turns: Vec<Turn>,
    snapshot: &mut ThreadEventSnapshot,
)
    requires
        call_ensures(
            App::apply_refreshed_snapshot_thread,
            (app, thread_id, session, turns, snapshot),
            (),
        ),
    ensures
        final(snapshot).session == Some(session),
        final(snapshot).turns == turns,
        final(snapshot).events@ == old(snapshot).events@.filter(
            |event: SnapshotEvent| event.survives_session_refresh,
        ),
        final(snapshot).has_pending_interactive_request == old(snapshot).has_pending_interactive_request,
        old(app).has_channel(thread_id@) ==> final(app).has_channel(thread_id@) && final(app).channel(thread_id@) == (ThreadEventChannel {
            session: Some(session),
            ..old(app).channel(thread_id@)
        }),
        !old(app).has_channel(thread_id@) ==> *final(app) == *old(app),
        final(app).active_thread_id == old(app).active_thread_id,
        final(app).primary_thread_id == old(app).primary_thread_id,
{
    surviving_filter(old(snapshot).events@, old(snapshot).events@.len());
    assert(old(snapshot).events@.take(old(snapshot).events@.len() as int) =~= old(snapshot).events@);
    if old(app).has_channel(thread_id@) {
        found_channel(old(app).thread_event_channels@, thread_id@, 0);
        channel_unmoved(
            old(app).thread_event_channels@,
            final(app).thread_event_channels@,
            thread_id@,
            0,
        );
    }
}

proof fn surviving_filter(events: Seq<SnapshotEvent>, count: nat)
    requires
        count <= events.len(),
    ensures
        surviving_events(events, count) == events.take(count as int).filter(
            |event: SnapshotEvent| event.survives_session_refresh,
        ),
    decreases count,
{
    reveal(Seq::filter);
    let some = events.take(count as int);
    if count > 0 {
        surviving_filter(events, (count - 1) as nat);
        assert(some.drop_last() =~= events.take(count - 1));
    }
}

/// A request that was answered meanwhile is not put to the user again, unless it is replayed;
/// all else is handled as what it is, now or in a replay. The status line follows turns that start
/// and tokens that are used.
pub proof fn answered_requests_are_stale(
    app: App,
    event: ThreadBufferedEvent,
    now: (EventHandling, bool),
    replayed: EventHandling,
)
    requires
        call_ensures(App::handle_thread_event_now, (&app, &event), now),
        call_ensures(App::handle_thread_event_replay, (&event,), replayed),
    ensures
        event matches ThreadBufferedEvent::Request { request_id } ==> {
            &&& now.0 == (if lists_text(app.pending_app_server_requests@, request_id@) {
                EventHandling::Request
            } else {
                EventHandling::StaleRequest
            })
            &&& replayed == EventHandling::Request
        },
        !(event is Request) ==> now.0 == replayed,
        replayed != EventHandling::StaleRequest,
        event is Notification <==> replayed == EventHandling::Notification,
        event is HistoryEntryResponse <==> replayed == EventHandling::HistoryEntry,
        event is FeedbackSubmission <==> replayed == EventHandling::Feedback,
        now.1 <==> (event matches ThreadBufferedEvent::Notification(notification) && (
        notification is TurnStarted || notification is ThreadTokenUsageUpdated)),
{
}

/// The primary thread takes over exactly where another active thread closes that the user did not
/// ask to close; everything else is handled as an event of the thread. A shutdown that was asked
/// for is complete when the thread that it was asked for closes.
pub proof fn an_unexpected_close_fails_over(
    app: &mut App,
    event: ThreadBufferedEvent,
    step: ActiveEventStep,
)
    requires
        call_ensures(App::handle_active_thread_event, (app, &event), step),
    ensures
        step is FailOver <==> {
            &&& event == ThreadBufferedEvent::Notification(ServerNotification::ThreadClosed)
            &&& old(app).active_thread_id matches Some(active)
            &&& old(app).primary_thread_id matches Some(primary)
            &&& active@ != primary@
            &&& (old(app).pending_shutdown_exit_thread_id matches Some(asked) ==> asked@ != active@)
        },
        step matches ActiveEventStep::FailOver { closed, primary, is_side } ==> {
            &&& old(app).active_thread_id == Some(closed)
            &&& old(app).primary_thread_id == Some(primary)
            &&& is_side == lists_text(old(app).side_threads@, closed@)
            &&& *final(app) == *old(app)
        },
        old(app).pending_shutdown_exit_thread_id is Some && final(app).pending_shutdown_exit_thread_id is None ==> {
            &&& event == ThreadBufferedEvent::Notification(ServerNotification::ThreadClosed)
            &&& old(app).active_thread_id matches Some(active)
            &&& old(app).pending_shutdown_exit_thread_id->0@ == active@
        },
        event == ThreadBufferedEvent::Notification(ServerNotification::ThreadClosed) && (old(app).active_thread_id matches Some(active) && old(app).pending_shutdown_exit_thread_id matches Some(asked) && asked@ == active@) ==> final(app).pending_shutdown_exit_thread_id is None,
        final(app).active_thread_id == old(app).active_thread_id,
        final(app).primary_thread_id == old(app).primary_thread_id,
        final(app).thread_event_channels == old(app).thread_event_channels,
{
    if let ThreadBufferedEvent::Notification(notification) = event {
        if notification is ThreadClosed {
            assert(notification == ServerNotification::ThreadClosed);
        }
    }
}

/// After a fail-over the user is told which thread closed. Where the primary thread could not be
/// shown no thread is, and that is told as an error.
pub proof fn a_failed_fail_over_shows_no_thread(
    app: &mut App,
    closed: &str,
    primary: &str,
    notice: FailOverNotice,
)
    requires
        call_ensures(App::finish_fail_over, (app, closed, primary), notice),
    ensures
        notice is Info <==> (old(app).active_thread_id matches Some(active) && active@
            == primary@),
        notice is Info ==> *final(app) == *old(app),
        notice is Error ==> final(app).active_thread_id is None && !final(app).active_receiver_held,
        notice matches FailOverNotice::Info(text) ==> text@ == "Agent thread "@ + closed@
            + " closed. Switched back to main thread."@,
        notice matches FailOverNotice::Error(text) ==> text@ == "Agent thread "@ + closed@
            + " closed. Failed to switch back to main thread "@ + primary@ + "."@,
{
}

/// The shown thread is dropped where its sender is gone, and only there; what is known of the
/// threads stays.
pub proof fn a_thread_without_sender_is_dropped(app: &mut App, disconnected: bool)
    requires
        call_ensures(App::drain_active_thread_events, (app, disconnected), ()),
    ensures
        old(app).active_receiver_held && disconnected ==> final(app).active_thread_id is None
            && !final(app).active_receiver_held,
        !(old(app).active_receiver_held && disconnected) ==> *final(app) == *old(app),
        final(app).primary_thread_id == old(app).primary_thread_id,
        final(app).thread_event_channels@.len() == old(app).thread_event_channels@.len(),
{
}

/// Why a thread was rolled back decides what follows, and as many turns are taken back as were
/// asked for.
pub proof fn a_rollback_is_followed_by_its_origin(
    app: &mut App,
    thread_id: &str,
    num_turns: u32,
    thread: Thread,
    origin: ThreadRollbackOrigin,
    disconnected: bool,
    step: RollbackStep,
)
    requires
        call_ensures(
            App::handle_thread_rollback_response_with_origin,
            (app, thread_id, num_turns, &thread, origin, disconnected),
            step,
        ),
    ensures
        step matches RollbackStep::BacktrackSucceeded { num_turns: back } ==> back == num_turns
            && origin == ThreadRollbackOrigin::Backtrack,
        step matches RollbackStep::ApplyNonPending { num_turns: back } ==> back == num_turns
            && origin == ThreadRollbackOrigin::SafetyBufferingRetry,
{
}

/// Leaving the shown thread names that thread, forgets the rollback that was asked for, and stops
/// its listener and no other.
pub proof fn leaving_a_thread_stops_its_listener(
    app: &mut App,
    left: Option<(ThreadId, bool)>,
)
    requires
        call_ensures(App::shutdown_current_thread, (app,), left),
    ensures
        match left {
            Some((name, stopped)) => {
                &&& old(app).chat_widget.thread_id == Some(name)
                &&& stopped == lists_text(old(app).thread_event_listener_tasks@, name@)
                &&& !final(app).rollback_pending
                &&& final(app).thread_event_listener_tasks@.len() == old(app).thread_event_listener_tasks@.len() - (if stopped {
                    1int
                } else {
                    0
                })
                &&& forall|other: Seq<char>|
                    other != name@ ==> #[trigger] lists_text(
                        final(app).thread_event_listener_tasks@,
                        other,
                    ) == lists_text(old(app).thread_event_listener_tasks@, other)
            },
            None => old(app).chat_widget.thread_id is None && *final(app) == *old(app),
        },
{
    if let Some((name, stopped)) = left {
        let before = old(app).thread_event_listener_tasks@;
        let after = final(app).thread_event_listener_tasks@;
        if stopped {
            let at = choose|i: int|
                0 <= i < before.len() && (#[trigger] before[i])@ == name@ && after == before.remove(
                    i,
                );
            assert forall|other: Seq<char>| other != name@ implies #[trigger] lists_text(
                after,
                other,
            ) == lists_text(before, other) by {
                crate::routing_laws::others_stay_listed(before, at, other);
            }
        }
    }
}

/// A thread that is dropped has its events no longer passed on, and is otherwise known as before;
/// so are all others.
pub proof fn a_dropped_thread_is_still_known(app: &mut App, active: String)
    requires
        call_ensures(App::drain_active_thread_events, (app, true), ()),
        old(app).active_receiver_held,
        old(app).active_thread_id == Some(active),
        old(app).has_channel(active@),
    ensures
        final(app).active_thread_id is None,
        final(app).has_channel(active@),
        final(app).channel(active@) == (ThreadEventChannel {
            active: false,
            ..old(app).channel(active@)
        }),
        crate::routing_laws::others_kept(*old(app), *final(app), active@),
{
    found_channel(old(app).thread_event_channels@, active@, 0);
    crate::routing_laws::replaced_channel(
        *old(app),
        *final(app),
        active@,
        ThreadEventChannel { active: false, ..old(app).channel(active@) },
    );
}

/// A rollback drops the shown thread only where it is the one that was rolled back and its sender is
/// gone; a rollback that goes back in the conversation is followed as such. It is told of once, and
/// leaves what is pending.
pub proof fn a_rollback_drops_only_its_own_thread(
    app: &mut App,
    other: &mut App,
    thread_id: &str,
    num_turns: u32,
    thread: Thread,
    origin: ThreadRollbackOrigin,
    disconnected: bool,
    step: RollbackStep,
    back: RollbackStep,
)
    requires
        old(app).well_formed(),
        old(other).well_formed(),
        call_ensures(
            App::handle_thread_rollback_response_with_origin,
            (app, thread_id, num_turns, &thread, origin, disconnected),
            step,
        ),
        call_ensures(
            App::handle_thread_rollback_response,
            (other, thread_id, num_turns, &thread, disconnected),
            back,
        ),
    ensures
        back == (RollbackStep::BacktrackSucceeded { num_turns }),
        ({
            let drops = (old(app).active_thread_id matches Some(active) && active@ == thread_id@)
                && old(app).active_receiver_held && disconnected;
            &&& drops ==> final(app).active_thread_id is None
            &&& !drops ==> final(app).active_thread_id == old(app).active_thread_id && final(app).thread_event_channels == old(app).thread_event_channels
        }),
        final(app).pending() == old(app).pending(),
        final(app).transitions().len() == old(app).transitions().len() + 1,
        final(app).primary_thread_id == old(app).primary_thread_id,
{
    let noted = choose|noted: App|
        #[trigger] old(app).rollback_noted(noted, thread_id@, thread) && noted.rollback_drained(
            *final(app),
            thread_id@,
            disconnected,
        );
}

} // verus!
