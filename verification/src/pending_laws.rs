//! How submissions on their way settle, one by one.
use crate::fence::FenceTable;
use crate::ids::Uuid;
use crate::ledger::{
    distinct, filed, holds, index_is, index_of, refiled, refiled_keeps_others, without,
    without_keeps_others,
};
use crate::pending::{
    client_message_id_injective, notified_end, sent_as_index, submissions_of,
    surviving_composer_submission_ids, ClearReport, DispatchReply, DispatchReport,
    NotifiedOutcome, PendingComposerSubmissionCommit, TransitionView,
};
use crate::receipt::SubmissionDispatchOutcome;
use crate::routing::{App, ServerNotification, Thread, ThreadItem};
use crate::submission::{client_message_id, client_message_id_of, NativeComposerSubmission};
use crate::text::lists_text;
use crate::widget::NativeComposerCommit;
use crate::wire::ErrorCode;
use vstd::prelude::*;
use vstd::string::*;

verus! {

/// Every other submission is pending as it was.
pub open spec fn others_wait(app: App, after: App, id: Uuid) -> bool {
    forall|other: Uuid| #![trigger holds(after.pending(), other)]
        other != id ==> holds(after.pending(), other) == holds(app.pending(), other) && (holds(
            app.pending(),
            other,
        ) ==> filed(after.pending(), other) == filed(app.pending(), other))
}

/// The draft of the submission may still be cleared: its thread is shown, and the user has not
/// taken it over.
pub open spec fn draft_stands(app: App, pending: PendingComposerSubmissionCommit, fences: FenceTable)
    -> bool {
    &&& app.chat_widget.thread_id matches Some(shown)
    &&& shown@ == pending.submission.thread_id@
    &&& pending.external_commit matches Some(commit)
    &&& commit.fence.index < fences.fences@.len()
    &&& !fences.fences@[commit.fence.index as int].relinquished
}

/// The draft of the submission has become the user's own, where its thread is shown.
pub open spec fn draft_taken_over(
    app: App,
    pending: PendingComposerSubmissionCommit,
    fences: FenceTable,
) -> bool {
    &&& app.chat_widget.thread_id matches Some(shown)
    &&& shown@ == pending.submission.thread_id@
    &&& pending.external_commit matches Some(commit)
    &&& commit.fence.index < fences.fences@.len() ==> fences.fences@[
        commit.fence.index as int
    ].relinquished
}

proof fn sent_under(
    entries: Seq<(Uuid, PendingComposerSubmissionCommit)>,
    id: Uuid,
    from: nat,
)
    requires
        distinct(entries),
        holds(entries, id),
        from <= index_of(entries, id),
    ensures
        sent_as_index(entries, client_message_id(id), from) == index_of(entries, id),
    decreases entries.len() - from,
{
    let at = index_of(entries, id);
    if from < at {
        assert(entries[from as int].0 != id);
        if client_message_id(entries[from as int].0) == client_message_id(id) {
            client_message_id_injective(entries[from as int].0, id);
        }
        sent_under(entries, id, from + 1);
    }
}

proof fn sent_by_nobody(
    entries: Seq<(Uuid, PendingComposerSubmissionCommit)>,
    client_id: Seq<char>,
    from: nat,
)
    requires
        from <= entries.len(),
        forall|id: Uuid| #[trigger] client_message_id(id) == client_id ==> !holds(entries, id),
    ensures
        sent_as_index(entries, client_id, from) == entries.len(),
    decreases entries.len() - from,
{
    if from < entries.len() {
        let id = entries[from as int].0;
        assert(holds(entries, id));
        if client_message_id(id) == client_id {
            assert(false);
        }
        sent_by_nobody(entries, client_id, from + 1);
    }
}

proof fn removed_is_without(
    entries: Seq<(Uuid, PendingComposerSubmissionCommit)>,
    id: Uuid,
)
    requires
        distinct(entries),
        holds(entries, id),
    ensures
        entries.remove(index_of(entries, id)) == without(entries, id),
{
}

/// A message that shows up in model history settles the submission that sent it, and no other one:
/// it is told of as committed and pending no more where nothing is left to do locally or the draft
/// became the user's own. Where its draft stands, that is to be cleared first; where its thread is
/// not shown, it waits.
pub proof fn a_message_in_history_settles_its_submission(
    app: &mut App,
    id: Uuid,
    client_id: String,
    fences: FenceTable,
    outcome: NotifiedOutcome,
)
    requires
        old(app).well_formed(),
        holds(old(app).pending(), id),
        call_ensures(client_message_id_of, (id,), client_id),
        call_ensures(
            App::note_composer_submission_notification,
            (
                app,
                &(ServerNotification::ItemCompleted {
                    item: ThreadItem::UserMessage { client_id: Some(client_id) },
                }),
                &fences,
            ),
            outcome,
        ),
    ensures
        ({
            let pending = filed(old(app).pending(), id);
            &&& outcome == NotifiedOutcome::Committed <==> (pending.external_commit is None
                || draft_taken_over(*old(app), pending, fences))
            &&& outcome == NotifiedOutcome::ClearDraft(id) <==> draft_stands(
                *old(app),
                pending,
                fences,
            )
            &&& outcome == NotifiedOutcome::Committed ==> !holds(final(app).pending(), id)
                && final(app).transitions() == old(app).transitions().push(
                TransitionView::Committed(pending.submission@),
            )
            &&& outcome != NotifiedOutcome::Committed ==> {
                &&& holds(final(app).pending(), id)
                &&& filed(final(app).pending(), id) == (PendingComposerSubmissionCommit {
                    item_committed: true,
                    ..pending
                })
                &&& final(app).transitions() == old(app).transitions()
            }
            &&& others_wait(*old(app), *final(app), id)
        }),
{
    let entries = old(app).pending();
    let at = index_of(entries, id);
    sent_under(entries, id, 0);
    let pending = filed(entries, id);
    let value = PendingComposerSubmissionCommit { item_committed: true, ..pending };
    refiled_keeps_others(entries, id, value);
    let noted = choose|noted: App|
        #[trigger] old(app).commit_noted(noted, at as nat) && noted.resolve_step(
            *final(app),
            at as nat,
            fences.fences@,
            outcome,
        );
    assert(noted.pending() =~= refiled(entries, id, value));
    crate::ledger::same_places(entries, noted.pending());
    index_is(noted.pending(), at);
    without_keeps_others(noted.pending(), id);
    removed_is_without(noted.pending(), id);
}

/// A message that no pending submission sent settles none, and neither does anything else that
/// happens in a thread, but for a completed message and the end of a turn.
pub proof fn a_foreign_message_settles_nothing(
    app: &mut App,
    notification: ServerNotification,
    fences: FenceTable,
    outcome: NotifiedOutcome,
)
    requires
        call_ensures(
            App::note_composer_submission_notification,
            (app, &notification, &fences),
            outcome,
        ),
        match notification {
            ServerNotification::ItemCompleted {
                item: ThreadItem::UserMessage { client_id: Some(client_id) },
            } => forall|id: Uuid| #[trigger]
                client_message_id(id) == client_id@ ==> !holds(old(app).pending(), id),
            ServerNotification::TurnCompleted { .. } => false,
            _ => true,
        },
    ensures
        outcome == NotifiedOutcome::Unsettled,
        *final(app) == *old(app),
{
    if let ServerNotification::ItemCompleted {
        item: ThreadItem::UserMessage { client_id: Some(client_id) },
    } = notification {
        sent_by_nobody(old(app).pending(), client_id@, 0);
    }
}

/// Only a submission whose message is in model history is settled; what is settled is told of once
/// and pending no more.
pub proof fn only_a_seen_message_is_settled(
    app: &mut App,
    id: Uuid,
    client_id: String,
    client_text: &str,
    fences: FenceTable,
    outcome: NotifiedOutcome,
)
    requires
        old(app).well_formed(),
        holds(old(app).pending(), id),
        call_ensures(client_message_id_of, (id,), client_id),
        client_text@ == client_id@,
        call_ensures(
            App::resolve_notified_composer_submission,
            (app, client_text, &fences),
            outcome,
        ),
    ensures
        ({
            let pending = filed(old(app).pending(), id);
            &&& !pending.item_committed ==> outcome == NotifiedOutcome::Unsettled
            &&& outcome == NotifiedOutcome::Committed <==> pending.item_committed && (
            pending.external_commit is None || draft_taken_over(*old(app), pending, fences))
            &&& outcome == NotifiedOutcome::Committed ==> !holds(final(app).pending(), id)
                && final(app).transitions() == old(app).transitions().push(
                TransitionView::Committed(pending.submission@),
            )
            &&& outcome != NotifiedOutcome::Committed ==> *final(app) == *old(app)
            &&& others_wait(*old(app), *final(app), id)
        }),
{
    let entries = old(app).pending();
    sent_under(entries, id, 0);
    without_keeps_others(entries, id);
    removed_is_without(entries, id);
}

/// A draft that is cleared commits its submission; one that could not be cleared leaves everything
/// as it was, and the user is told.
pub proof fn a_cleared_draft_commits_its_submission(
    app: &mut App,
    id: Uuid,
    fences: FenceTable,
    draft_cleared: bool,
    report: ClearReport,
)
    requires
        old(app).well_formed(),
        call_ensures(App::finish_notified_clear, (app, id, &fences, draft_cleared), report),
    ensures
        report is Cleared <==> draft_cleared && holds(old(app).pending(), id) && ({
            let pending = filed(old(app).pending(), id);
            &&& pending.external_commit matches Some(commit)
            &&& commit.fence.index < fences.fences@.len()
            &&& !fences.fences@[commit.fence.index as int].relinquished
            &&& old(app).chat_widget.thread_id matches Some(shown)
            &&& shown@ == commit.submission.thread_id@
        }),
        report is Cleared ==> {
            &&& !holds(final(app).pending(), id)
            &&& final(app).transitions() == old(app).transitions().push(
                TransitionView::Committed(filed(old(app).pending(), id).submission@),
            )
            &&& others_wait(*old(app), *final(app), id)
        },
        !(report is Cleared) ==> *final(app) == *old(app),
        report is Nothing <==> !holds(old(app).pending(), id) || filed(
            old(app).pending(),
            id,
        ).external_commit is None,
{
    if holds(old(app).pending(), id) {
        without_keeps_others(old(app).pending(), id);
        removed_is_without(old(app).pending(), id);
    }
}

/// A submission that was taken into a turn waits there for its message, and is told of as pending.
pub proof fn a_registered_submission_waits_in_its_turn(
    app: &mut App,
    submission: NativeComposerSubmission,
    turn_id: String,
)
    requires
        old(app).well_formed(),
        call_ensures(
            App::register_pending_composer_submission,
            (app, submission, turn_id),
            (),
        ),
    ensures
        holds(final(app).pending(), submission.submission_id),
        filed(final(app).pending(), submission.submission_id) == (PendingComposerSubmissionCommit {
            submission,
            turn_id: Some(turn_id),
            external_commit: None,
            item_committed: false,
        }),
        final(app).transitions() == old(app).transitions().push(
            TransitionView::Pending(submission@),
        ),
        others_wait(*old(app), *final(app), submission.submission_id),
        final(app).active_thread_id == old(app).active_thread_id,
        final(app).chat_widget == old(app).chat_widget,
{
    filed_anew(
        old(app).pending(),
        submission.submission_id,
        PendingComposerSubmissionCommit {
            submission,
            turn_id: Some(turn_id),
            external_commit: None,
            item_committed: false,
        },
    );
}

/// What is filed under an identifier is found there, and the rest stays as it was.
pub proof fn filed_anew(
    entries: Seq<(Uuid, PendingComposerSubmissionCommit)>,
    id: Uuid,
    pending: PendingComposerSubmissionCommit,
)
    requires
        distinct(entries),
    ensures
        ({
            let after = crate::pending::with_pending(entries, id, pending);
            &&& holds(after, id)
            &&& filed(after, id) == pending
            &&& forall|other: Uuid| #![trigger holds(after, other)]
                other != id ==> holds(after, other) == holds(entries, other) && (holds(
                    entries,
                    other,
                ) ==> filed(after, other) == filed(entries, other))
        }),
{
    let after = crate::pending::with_pending(entries, id, pending);
    if holds(entries, id) {
        refiled_keeps_others(entries, id, pending);
    } else {
        assert(after[entries.len() as int].0 == id);
        index_is(after, entries.len() as int);
        assert forall|other: Uuid| #![trigger holds(after, other)] other != id implies holds(
            after,
            other,
        ) == holds(entries, other) && (holds(entries, other) ==> filed(after, other) == filed(
            entries,
            other,
        )) by {
            if holds(entries, other) {
                let k = index_of(entries, other);
                assert(after[k] == entries[k]);
                index_is(after, k);
            }
            if holds(after, other) {
                let k = index_of(after, other);
                assert(after[k].0 == other);
                assert(entries[k] == after[k]);
            }
        }
    }
}

/// A submission is dispatched only in the thread that is shown; else it is refused and nothing
/// changes. From then it waits, with the local commit that it is to make.
pub proof fn a_submission_is_dispatched_in_the_shown_thread(
    app: &mut App,
    submission: NativeComposerSubmission,
    commit: Option<NativeComposerCommit>,
    thread_id: Option<String>,
    begun: Result<(), SubmissionDispatchOutcome>,
)
    requires
        old(app).well_formed(),
        call_ensures(
            App::dispatch_native_composer_submit,
            (app, &submission, commit, &thread_id),
            begun,
        ),
    ensures
        begun is Ok <==> {
            &&& thread_id matches Some(name)
            &&& old(app).active_thread_id matches Some(active)
            &&& active@ == name@
            &&& old(app).chat_widget.thread_id matches Some(shown)
            &&& shown@ == name@
        },
        begun is Err ==> *final(app) == *old(app) && begun->Err_0
            == SubmissionDispatchOutcome::NotApplied(ErrorCode::ComposerUnavailable),
        begun is Ok ==> {
            let waits = filed(final(app).pending(), submission.submission_id);
            &&& holds(final(app).pending(), submission.submission_id)
            &&& waits.submission@ == submission@
            &&& waits.external_commit == commit
            &&& waits.turn_id is None
            &&& !waits.item_committed
            &&& others_wait(*old(app), *final(app), submission.submission_id)
        },
{
    if begun is Ok {
        let id = submission.submission_id;
        filed_anew(old(app).pending(), id, filed(final(app).pending(), id));
    }
}

/// A dispatch that timed out leaves the submission waiting, and its outcome unknown. One that is
/// known not to be applied is forgotten; one that ended otherwise still waits.
pub proof fn an_unanswered_submission_still_waits(
    app: &mut App,
    submission: NativeComposerSubmission,
    reply: DispatchReply,
    fences: FenceTable,
    draft_cleared: bool,
    finished: (SubmissionDispatchOutcome, DispatchReport),
)
    requires
        old(app).well_formed(),
        !(reply is Accepted),
        call_ensures(
            App::finish_native_composer_submit,
            (app, &submission, reply, &fences, draft_cleared),
            finished,
        ),
    ensures
        reply is TimedOut ==> finished.0 is Unknown && *final(app) == *old(app),
        reply matches DispatchReply::Ended(ended) ==> finished.0 == ended,
        finished.0 is NotApplied ==> !holds(final(app).pending(), submission.submission_id),
        !(finished.0 is NotApplied) ==> final(app).pending() == old(app).pending(),
        others_wait(*old(app), *final(app), submission.submission_id),
        final(app).chat_widget == old(app).chat_widget,
        final(app).transitions() == old(app).transitions(),
        finished.1 is Nothing,
{
    without_keeps_others(old(app).pending(), submission.submission_id);
}

/// A message that was taken waits in the turn that took it. It counts as accepted where its draft
/// was cleared, or where it never had one; else it was accepted but not committed, which is told,
/// and its draft stays to be cleared.
pub proof fn an_accepted_submission_waits_in_its_turn(
    app: &mut App,
    submission: NativeComposerSubmission,
    turn_id: String,
    fences: FenceTable,
    draft_cleared: bool,
    finished: (SubmissionDispatchOutcome, DispatchReport),
)
    requires
        old(app).well_formed(),
        holds(old(app).pending(), submission.submission_id),
        call_ensures(
            App::finish_native_composer_submit,
            (app, &submission, DispatchReply::Accepted(turn_id), &fences, draft_cleared),
            finished,
        ),
    ensures
        ({
            let before = filed(old(app).pending(), submission.submission_id);
            let after = filed(final(app).pending(), submission.submission_id);
            &&& holds(final(app).pending(), submission.submission_id)
            &&& after.turn_id == Some(turn_id)
            &&& after.submission == before.submission
            &&& after.item_committed == before.item_committed
            &&& finished.0 is Accepted ==> after.external_commit is None
            &&& !(finished.0 is Accepted) ==> after.external_commit == before.external_commit
                && finished.0 is AcceptedButUncommitted && finished.1 is Failed && final(app).chat_widget == old(app).chat_widget
            &&& before.external_commit matches Some(commit) ==> (finished.0 is Accepted
                <==> draft_cleared && commit.fence.index < fences.fences@.len()
                && !fences.fences@[commit.fence.index as int].relinquished && (old(app).chat_widget.thread_id matches Some(shown) && shown@
                == commit.submission.thread_id@))
            &&& before.external_commit is None ==> (finished.0 is Accepted
                <==> submission.direct_lease_id is Some)
            &&& finished.1 is Committed <==> before.external_commit is Some
                && finished.0 is Accepted
        }),
        others_wait(*old(app), *final(app), submission.submission_id),
        final(app).transitions() == old(app).transitions(),
{
    let id = submission.submission_id;
    let before = filed(old(app).pending(), id);
    refiled_keeps_others(
        old(app).pending(),
        id,
        PendingComposerSubmissionCommit {
            turn_id: Some(turn_id),
            external_commit: if finished.0 is Accepted {
                None
            } else {
                before.external_commit
            },
            ..before
        },
    );
}

/// Every pending submission of a thread is listed, and no other one.
pub proof fn submissions_of_a_thread_are_listed(
    app: App,
    thread_id: &str,
    ids: Vec<Uuid>,
    id: Uuid,
)
    requires
        app.well_formed(),
        call_ensures(App::thread_submissions, (&app, thread_id), ids),
    ensures
        ids@.contains(id) <==> holds(app.pending(), id) && filed(
            app.pending(),
            id,
        ).submission.thread_id@ == thread_id@,
{
    crate::send_laws::a_rollback_looks_at_its_thread(app.pending(), thread_id@, id);
}

/// A rollback abandons exactly the submissions whose message it took back; the others stay pending
/// with their message in model history, or are committed. Nothing else is touched.
pub proof fn a_rollback_abandons_what_it_took_back(
    app: &mut App,
    id: Uuid,
    client_id: String,
    surviving: Vec<String>,
    fences: FenceTable,
    outcome: NotifiedOutcome,
)
    requires
        old(app).well_formed(),
        holds(old(app).pending(), id),
        call_ensures(client_message_id_of, (id,), client_id),
        call_ensures(App::roll_back_submission, (app, id, &surviving, &fences), outcome),
    ensures
        outcome == NotifiedOutcome::Abandoned <==> !lists_text(surviving@, client_id@),
        outcome == NotifiedOutcome::Abandoned ==> !holds(final(app).pending(), id) && final(app).transitions() == old(app).transitions().push(
            TransitionView::Abandoned(filed(old(app).pending(), id).submission@),
        ),
        outcome == NotifiedOutcome::Committed <==> lists_text(surviving@, client_id@) && (filed(
            old(app).pending(),
            id,
        ).external_commit is None || draft_taken_over(
            *old(app),
            filed(old(app).pending(), id),
            fences,
        )),
        outcome == NotifiedOutcome::ClearDraft(id) <==> lists_text(surviving@, client_id@)
            && draft_stands(*old(app), filed(old(app).pending(), id), fences),
        others_wait(*old(app), *final(app), id),
        final(app).chat_widget == old(app).chat_widget,
        final(app).thread_event_channels == old(app).thread_event_channels,
{
    let entries = old(app).pending();
    let pending = filed(entries, id);
    without_keeps_others(entries, id);
    removed_is_without(entries, id);
    refiled_keeps_others(entries, id, crate::pending::noted_committed(pending));
}

/// The messages of ours that a thread holds are found, each by its submission.
pub proof fn surviving_messages_are_found(
    thread: Thread,
    surviving: (Vec<String>, Vec<Uuid>),
    turn: int,
    item: int,
    id: Uuid,
)
    requires
        call_ensures(surviving_composer_submission_ids, (&thread,), surviving),
        0 <= turn < thread.turns@.len(),
        0 <= item < thread.turns@[turn].items@.len(),
    ensures
        (thread.turns@[turn].items@[item] matches ThreadItem::UserMessage { client_id: Some(sent) }
            && sent@ == client_message_id(id)) ==> surviving.1@.contains(id) && lists_text(
            surviving.0@,
            client_message_id(id),
        ),
{
    if let ThreadItem::UserMessage { client_id: Some(sent) } = thread.turns@[turn].items@[item] {
        if sent@ == client_message_id(id) {
            crate::pending::client_message_id_is_ours(id);
            assert(crate::pending::is_sent_as(thread.turns@[turn].items@[item], sent@));
            assert(crate::pending::thread_holds(thread, client_message_id(id)));
        }
    }
}

/// Nothing is found that the thread does not hold.
pub proof fn only_held_messages_are_found(
    thread: Thread,
    surviving: (Vec<String>, Vec<Uuid>),
    client_id: Seq<char>,
)
    requires
        call_ensures(surviving_composer_submission_ids, (&thread,), surviving),
        lists_text(surviving.0@, client_id),
    ensures
        exists|turn: int, item: int|
            #![trigger thread.turns@[turn].items@[item]]
            0 <= turn < thread.turns@.len() && 0 <= item < thread.turns@[turn].items@.len() && (
            thread.turns@[turn].items@[item] matches ThreadItem::UserMessage {
                client_id: Some(sent),
            } && sent@ == client_id && "koenig-composer-"@.is_prefix_of(sent@)),
{
    let named = (&thread,);
    assert(call_ensures(surviving_composer_submission_ids, named, surviving));
    assert(crate::pending::thread_holds(*named.0, client_id));
    let (t, i) = choose|t: int, i: int|
        #![trigger thread.turns@[t].items@[i]]
        0 <= t < thread.turns@.len() && 0 <= i < thread.turns@[t].items@.len()
            && crate::pending::is_sent_as(thread.turns@[t].items@[i], client_id);
    assert(thread.turns@[t].items@[i] is UserMessage);
    let prefix = "koenig-composer-"@;
    assert(client_id.subrange(0, prefix.len() as int) =~= client_id.take(prefix.len() as int));
}

/// The control plane is told of a rollback: of the thread, and of every submission whose message
/// the thread still holds. Nothing else changes.
pub proof fn a_rollback_is_told_of(
    app: &mut App,
    thread_id: &str,
    thread: Thread,
    turn: int,
    item: int,
    id: Uuid,
)
    requires
        call_ensures(App::note_thread_rollback, (app, thread_id, &thread), ()),
        0 <= turn < thread.turns@.len(),
        0 <= item < thread.turns@[turn].items@.len(),
    ensures
        final(app).pending() == old(app).pending(),
        final(app).transitions().len() == old(app).transitions().len() + 1,
        final(app).transitions().drop_last() == old(app).transitions(),
        final(app).transitions().last() matches TransitionView::ThreadRolledBack(name, left)
            && name == thread_id@ && ((thread.turns@[turn].items@[item] matches
        ThreadItem::UserMessage { client_id: Some(sent) } && sent@ == client_message_id(id))
            ==> left.contains(id)),
        final(app).thread_event_channels == old(app).thread_event_channels,
{
    if let ThreadItem::UserMessage { client_id: Some(sent) } = thread.turns@[turn].items@[item] {
        if sent@ == client_message_id(id) {
            crate::pending::client_message_id_is_ours(id);
            assert(crate::pending::is_sent_as(thread.turns@[turn].items@[item], sent@));
            assert(crate::pending::thread_holds(thread, client_message_id(id)));
        }
    }
}

/// The message of a pending submission is in model history, and its draft stands.
pub open spec fn is_to_clear(app: App, fences: FenceTable, id: Uuid) -> bool {
    exists|j: int|
        {
            &&& 0 <= j < app.pending().len()
            &&& (#[trigger] app.pending()[j]).0 == id
            &&& app.pending()[j].1.item_committed
            &&& draft_stands(app, app.pending()[j].1, fences)
        }
}

/// Once the thread is shown, every submission of it whose message is in model history and whose
/// draft waits is settled: its draft is cleared where it stands, and it is committed where the user
/// has taken the draft over. Those of other threads, and those whose message is not there, wait on.
pub proof fn showing_a_thread_settles_its_submissions(
    app: &mut App,
    fences: FenceTable,
    to_clear: Vec<Uuid>,
    i: int,
)
    requires
        old(app).well_formed(),
        call_ensures(
            App::resolve_notified_composer_submissions_for_active_thread,
            (app, &fences),
            to_clear,
        ),
        0 <= i < old(app).pending().len(),
    ensures
        ({
            let (id, pending) = old(app).pending()[i];
            let settles = pending.item_committed && draft_taken_over(*old(app), pending, fences);
            let clears = pending.item_committed && draft_stands(*old(app), pending, fences);
            &&& clears ==> to_clear@.contains(id)
            &&& !settles ==> final(app).pending().contains((id, pending))
            &&& settles ==> final(app).transitions().contains(
                TransitionView::Committed(pending.submission@),
            )
        }),
        forall|k: int|
            0 <= k < to_clear@.len() ==> is_to_clear(*old(app), fences, #[trigger] to_clear@[k]),
        forall|k: int|
            0 <= k < final(app).pending().len() ==> old(app).pending().contains(
                #[trigger] final(app).pending()[k],
            ),
        final(app).chat_widget == old(app).chat_widget,
{
    let question = crate::pending::PendingQuestion::Notified;
    let shown = old(app).chat_widget.thread_id;
    let entries = old(app).pending();
    let seen = crate::pending::examined(question, shown, fences.fences@, entries);
    looked_at(question, shown, fences.fences@, entries, i);
    let (id, pending) = entries[i];
    let end = crate::pending::verdict(question, shown, fences.fences@, pending);
    if end == crate::pending::PendingEnd::Commit {
        crate::send_laws::ended_submissions_are_told_of(
            question,
            shown,
            fences.fences@,
            entries,
            i,
        );
        let told = TransitionView::Committed(pending.submission@);
        let k = choose|k: int| 0 <= k < seen.transitions.len() && seen.transitions[k] == told;
        assert(final(app).transitions()[old(app).transitions().len() + k] == told);
    }
    assert forall|k: int| 0 <= k < to_clear@.len() implies is_to_clear(
        *old(app),
        fences,
        #[trigger] to_clear@[k],
    ) by {
        let j = cleared_was_pending(question, shown, fences.fences@, entries, k);
        assert(entries[j].0 == to_clear@[k]);
    }
    assert forall|k: int| 0 <= k < final(app).pending().len() implies entries.contains(
        #[trigger] final(app).pending()[k],
    ) by {
        let j = left_was_pending(question, shown, fences.fences@, entries, k);
        assert(entries[j] == final(app).pending()[k]);
    }
}

proof fn looked_at(
    question: crate::pending::PendingQuestion,
    shown: Option<String>,
    fences: Seq<crate::fence::SubmitFence>,
    entries: Seq<(Uuid, PendingComposerSubmissionCommit)>,
    i: int,
)
    requires
        0 <= i < entries.len(),
    ensures
        ({
            let seen = crate::pending::examined(question, shown, fences, entries);
            let end = crate::pending::verdict(question, shown, fences, entries[i].1);
            &&& crate::pending::stays(end) ==> seen.pending.contains(entries[i])
            &&& end == crate::pending::PendingEnd::ClearDraft ==> seen.to_clear.contains(
                entries[i].0,
            )
        }),
    decreases entries.len(),
{
    let shorter = entries.drop_last();
    let earlier = crate::pending::examined(question, shown, fences, shorter);
    let seen = crate::pending::examined(question, shown, fences, entries);
    if i < shorter.len() {
        looked_at(question, shown, fences, shorter, i);
        assert(shorter[i] == entries[i]);
        if earlier.pending.contains(entries[i]) {
            let k = choose|k: int| 0 <= k < earlier.pending.len() && earlier.pending[k] == entries[i];
            assert(seen.pending[k] == entries[i]);
        }
        if earlier.to_clear.contains(entries[i].0) {
            let k = choose|k: int|
                0 <= k < earlier.to_clear.len() && earlier.to_clear[k] == entries[i].0;
            assert(seen.to_clear[k] == entries[i].0);
        }
    } else {
        let end = crate::pending::verdict(question, shown, fences, entries[i].1);
        if crate::pending::stays(end) {
            assert(seen.pending[seen.pending.len() - 1] == entries[i]);
        }
        if end == crate::pending::PendingEnd::ClearDraft {
            assert(seen.to_clear[seen.to_clear.len() - 1] == entries[i].0);
        }
    }
}

proof fn cleared_was_pending(
    question: crate::pending::PendingQuestion,
    shown: Option<String>,
    fences: Seq<crate::fence::SubmitFence>,
    entries: Seq<(Uuid, PendingComposerSubmissionCommit)>,
    k: int,
) -> (j: int)
    requires
        0 <= k < crate::pending::examined(question, shown, fences, entries).to_clear.len(),
    ensures
        0 <= j < entries.len(),
        entries[j].0 == crate::pending::examined(question, shown, fences, entries).to_clear[k],
        crate::pending::verdict(question, shown, fences, entries[j].1)
            == crate::pending::PendingEnd::ClearDraft,
    decreases entries.len(),
{
    let shorter = entries.drop_last();
    let earlier = crate::pending::examined(question, shown, fences, shorter);
    if k < earlier.to_clear.len() {
        let j = cleared_was_pending(question, shown, fences, shorter, k);
        assert(entries[j] == shorter[j]);
        j
    } else {
        entries.len() - 1
    }
}

proof fn left_was_pending(
    question: crate::pending::PendingQuestion,
    shown: Option<String>,
    fences: Seq<crate::fence::SubmitFence>,
    entries: Seq<(Uuid, PendingComposerSubmissionCommit)>,
    k: int,
) -> (j: int)
    requires
        0 <= k < crate::pending::examined(question, shown, fences, entries).pending.len(),
    ensures
        0 <= j < entries.len(),
        entries[j] == crate::pending::examined(question, shown, fences, entries).pending[k],
    decreases entries.len(),
{
    let shorter = entries.drop_last();
    let earlier = crate::pending::examined(question, shown, fences, shorter);
    if k < earlier.pending.len() {
        let j = left_was_pending(question, shown, fences, shorter, k);
        assert(entries[j] == shorter[j]);
        j
    } else {
        entries.len() - 1
    }
}

/// The end of a turn abandons exactly the submissions of that turn and thread whose message never
/// showed up; all others wait on.
pub proof fn the_end_of_a_turn_abandons_what_never_showed_up(
    app: &mut App,
    thread_id: String,
    turn_id: String,
    fences: FenceTable,
    outcome: NotifiedOutcome,
    i: int,
)
    requires
        old(app).well_formed(),
        call_ensures(
            App::note_composer_submission_notification,
            (app, &(ServerNotification::TurnCompleted { thread_id, turn_id }), &fences),
            outcome,
        ),
        0 <= i < old(app).pending().len(),
    ensures
        outcome == NotifiedOutcome::Unsettled,
        ({
            let (id, pending) = old(app).pending()[i];
            let lost = !pending.item_committed && pending.submission.thread_id@ == thread_id@ && (
            pending.turn_id matches Some(turn) && turn@ == turn_id@);
            &&& !lost ==> final(app).pending().contains((id, pending))
            &&& lost ==> final(app).transitions().contains(
                TransitionView::Abandoned(pending.submission@),
            )
            &&& lost ==> !final(app).pending().contains((id, pending))
        }),
{
    let question = crate::pending::PendingQuestion::TurnEnded { thread_id, turn_id };
    let shown = old(app).chat_widget.thread_id;
    let entries = old(app).pending();
    let seen = crate::pending::examined(question, shown, fences.fences@, entries);
    looked_at(question, shown, fences.fences@, entries, i);
    crate::send_laws::ended_submissions_are_told_of(question, shown, fences.fences@, entries, i);
    let (id, pending) = entries[i];
    let told = TransitionView::Abandoned(pending.submission@);
    if seen.transitions.contains(told) {
        let k = choose|k: int| 0 <= k < seen.transitions.len() && seen.transitions[k] == told;
        assert(final(app).transitions()[old(app).transitions().len() + k] == told);
    }
    crate::send_laws::the_end_of_a_turn_settles_its_submissions(
        thread_id,
        turn_id,
        shown,
        fences.fences@,
        entries,
    );
    if final(app).pending().contains((id, pending)) {
        let k = choose|k: int|
            0 <= k < final(app).pending().len() && final(app).pending()[k] == (id, pending);
        assert(seen.pending[k].1 == pending);
    }
}

/// What could not be done locally is told in so many words: that the message was committed or
/// accepted, and that its draft was not cleared.
pub proof fn a_draft_that_was_not_cleared_is_told_of(
    app: &mut App,
    other: &mut App,
    id: Uuid,
    submission: NativeComposerSubmission,
    reply: DispatchReply,
    fences: FenceTable,
    draft_cleared: bool,
    report: ClearReport,
    finished: (SubmissionDispatchOutcome, DispatchReport),
)
    requires
        old(app).well_formed(),
        old(other).well_formed(),
        call_ensures(App::finish_notified_clear, (app, id, &fences, draft_cleared), report),
        call_ensures(
            App::finish_native_composer_submit,
            (other, &submission, reply, &fences, draft_cleared),
            finished,
        ),
    ensures
        report matches ClearReport::Failed(told) ==> told@
            == "Koenig send committed, but its exact retained draft could not be cleared. Submission remains fenced."@,
        finished.1 matches DispatchReport::Failed(told) ==> told@
            == "Koenig send was accepted, but the exact draft could not be cleared. Automatic resubmission is disabled."@,
        finished.1 is Failed <==> finished.0 is AcceptedButUncommitted && reply is Accepted,
{
}

/// Once an event is through, the leases are settled on what the composer shows, and the pending
/// submissions on the fences as they stand then: both as each does by itself.
pub proof fn an_event_settles_leases_first<T: crate::target::ComposerControlTarget>(
    app: &mut App,
    alone: &mut App,
    state: &mut crate::control::ComposerControlState,
    plain: &mut crate::control::ComposerControlState,
    target: T,
    fences: FenceTable,
    to_clear: Vec<Uuid>,
    cleared: Vec<Uuid>,
)
    requires
        old(app).well_formed(),
        old(state).well_formed(),
        *old(alone) == *old(app),
        *old(plain) == *old(state),
        call_ensures(App::finish_composer_tui_event::<T>, (app, state, &target), to_clear),
        call_ensures(
            crate::control::ComposerControlState::finish_tui_event::<T>,
            (plain, &target),
            (),
        ),
        call_ensures(
            App::resolve_notified_composer_submissions_for_active_thread,
            (alone, &fences),
            cleared,
        ),
    ensures
        final(state)@ == final(plain)@,
        fences.fences@ == final(state).fences.fences@ ==> to_clear@ == cleared@ && final(app).pending() == final(alone).pending() && final(app).transitions() == final(alone).transitions(),
{
}

} // verus!
