//! Composer submissions between the app-server's acceptance and the commit to model history.
use crate::control::ComposerControlState;
use crate::fence::{is_let_go, FenceTable, SubmitFence};
use crate::ids::{hyphenated_text, hyphenated_text_injective, lists, parse_uuid, parsed_uuid, Uuid};
use crate::ledger::{
    distinct, filed, holds, index_is, index_of, refiled, refiled_keeps_others, same_places, without,
    without_keeps_others,
};
use crate::receipt::SubmissionDispatchOutcome;
use crate::routing::{is_thread, names_thread, App, ServerNotification, Thread, ThreadItem, Turn};
use crate::submission::{
    client_message_id, client_message_id_of, NativeComposerSubmission, SubmissionView,
};
use crate::target::ComposerControlTarget;
use crate::text::{finds_text, lists_text, same_text};
use crate::wire::ErrorCode;
use crate::widget::{NativeComposerCommit, WidgetEffect};
use vstd::prelude::*;
use vstd::string::*;

verus! {

/// A submission that was, or may have been, accepted and has not settled.
pub struct PendingComposerSubmissionCommit {
    pub submission: NativeComposerSubmission,
    pub turn_id: Option<String>,
    /// The local commit that has not happened yet.
    pub external_commit: Option<NativeComposerCommit>,
    /// The message is in model history.
    pub item_committed: bool,
}

/// What became of a submission, for the control plane to follow.
pub enum ComposerSubmissionTransition {
    Pending(NativeComposerSubmission),
    Committed(NativeComposerSubmission),
    Abandoned(NativeComposerSubmission),
    ThreadRolledBack { thread_id: String, surviving_submission_ids: Vec<Uuid> },
}

/// What became of a submission, as plain values.
pub enum TransitionView {
    Pending(SubmissionView),
    Committed(SubmissionView),
    Abandoned(SubmissionView),
    ThreadRolledBack(Seq<char>, Seq<Uuid>),
}

impl View for ComposerSubmissionTransition {
    type V = TransitionView;

    open spec fn view(&self) -> TransitionView {
        match self {
            ComposerSubmissionTransition::Pending(submission) => TransitionView::Pending(
                submission@,
            ),
            ComposerSubmissionTransition::Committed(submission) => TransitionView::Committed(
                submission@,
            ),
            ComposerSubmissionTransition::Abandoned(submission) => TransitionView::Abandoned(
                submission@,
            ),
            ComposerSubmissionTransition::ThreadRolledBack {
                thread_id,
                surviving_submission_ids,
            } => TransitionView::ThreadRolledBack(thread_id@, surviving_submission_ids@),
        }
    }
}

/// Transitions as plain values.
pub open spec fn transition_views(transitions: Seq<ComposerSubmissionTransition>) -> Seq<
    TransitionView,
> {
    transitions.map_values(|transition: ComposerSubmissionTransition| transition@)
}

/// The prefix that marks a client identity as one of ours.
pub open spec fn is_our_client_id(client_id: Seq<char>) -> bool {
    "koenig-composer-"@.len() <= client_id.len() && client_id.take(
        "koenig-composer-"@.len() as int,
    ) == "koenig-composer-"@
}

/// What follows the prefix.
pub open spec fn client_id_tail(client_id: Seq<char>) -> Seq<char> {
    client_id.skip("koenig-composer-"@.len() as int)
}

/// The item is a message that was sent from the composer under `client_id`.
pub open spec fn is_sent_as(item: ThreadItem, client_id: Seq<char>) -> bool {
    item matches ThreadItem::UserMessage { client_id: Some(id) } && id@ == client_id
        && is_our_client_id(client_id)
}

/// The thread holds a message that was sent from the composer under `client_id`.
pub open spec fn thread_holds(thread: Thread, client_id: Seq<char>) -> bool {
    exists|t: int, i: int|
        #![trigger thread.turns@[t].items@[i]]
        0 <= t < thread.turns@.len() && 0 <= i < thread.turns@[t].items@.len() && is_sent_as(
            thread.turns@[t].items@[i],
            client_id,
        )
}

/// What follows our prefix in a client identity; none where it is not ours.
fn our_client_id_tail(client_id: &str) -> (tail: Option<&str>)
    ensures
        tail is Some == is_our_client_id(client_id@),
        tail is Some ==> tail->0@ == client_id_tail(client_id@),
{
    let prefix: &str = "koenig-composer-";
    let prefix_len: usize = prefix.unicode_len();
    let len: usize = client_id.unicode_len();
    if len < prefix_len {
        return None;
    }
    let head: &str = client_id.substring_char(0, prefix_len);
    assert(head@ =~= client_id@.take(prefix_len as int));
    if !same_text(head, prefix) {
        return None;
    }
    let tail: &str = client_id.substring_char(prefix_len, len);
    assert(tail@ =~= client_id_tail(client_id@));
    Some(tail)
}

/// The composer messages that a thread holds: the client identities under which they were sent,
/// and the submissions that those identities name.
pub fn surviving_composer_submission_ids(thread: &Thread) -> (surviving: (Vec<String>, Vec<Uuid>))
    ensures
        forall|client_id: Seq<char>|
            lists_text(surviving.0@, client_id) == #[trigger] thread_holds(*thread, client_id),
        forall|id: Uuid| #[trigger]
            surviving.1@.contains(id) == (exists|client_id: Seq<char>|
                #[trigger] thread_holds(*thread, client_id) && parsed_uuid(
                    client_id_tail(client_id),
                ) == Some(id)),
        forall|id: Uuid|
            thread_holds(*thread, #[trigger] client_message_id(id)) ==> surviving.1@.contains(id),
{
    let mut client_ids: Vec<String> = Vec::new();
    let mut t: usize = 0;
    while t < thread.turns.len()
        invariant
            t <= thread.turns@.len(),
            forall|k: int|
                0 <= k < client_ids@.len() ==> thread_holds(
                    *thread,
                    (#[trigger] client_ids@[k])@,
                ),
            forall|a: int, b: int, client_id: Seq<char>|
                0 <= a < t && 0 <= b < thread.turns@[a].items@.len() && #[trigger] is_sent_as(
                    thread.turns@[a].items@[b],
                    client_id,
                ) ==> lists_text(client_ids@, client_id),
        decreases thread.turns@.len() - t,
    {
        let turn: &Turn = &thread.turns[t];
        let mut i: usize = 0;
        while i < turn.items.len()
            invariant
                t < thread.turns@.len(),
                *turn == thread.turns@[t as int],
                i <= turn.items@.len(),
                forall|k: int|
                    0 <= k < client_ids@.len() ==> thread_holds(
                        *thread,
                        (#[trigger] client_ids@[k])@,
                    ),
                forall|a: int, b: int, client_id: Seq<char>|
                    (0 <= a < t && 0 <= b < thread.turns@[a].items@.len() || a == t && 0 <= b < i)
                        && #[trigger] is_sent_as(thread.turns@[a].items@[b], client_id)
                        ==> lists_text(client_ids@, client_id),
            decreases turn.items@.len() - i,
        {
            let ghost before = client_ids@;
            if let ThreadItem::UserMessage { client_id: Some(client_id) } = &turn.items[i] {
                if our_client_id_tail(client_id.as_str()).is_some() && !finds_text(
                    &client_ids,
                    client_id.as_str(),
                ) {
                    assert(is_sent_as(thread.turns@[t as int].items@[i as int], client_id@));
                    client_ids.push(client_id.clone());
                    assert forall|text: Seq<char>| lists_text(
                        before,
                        text,
                    ) implies #[trigger] lists_text(client_ids@, text) by {
                        let at = choose|k: int| 0 <= k < before.len() && before[k]@ == text;
                        assert(client_ids@[at]@ == text);
                    }
                    assert(client_ids@[before.len() as int]@ == client_id@);
                }
            }
            i += 1;
        }
        t += 1;
    }
    proof {
        assert forall|client_id: Seq<char>| lists_text(
            client_ids@,
            client_id,
        ) == #[trigger] thread_holds(*thread, client_id) by {
            if thread_holds(*thread, client_id) {
                let (a, b) = choose|a: int, b: int|
                    #![trigger thread.turns@[a].items@[b]]
                    0 <= a < thread.turns@.len() && 0 <= b < thread.turns@[a].items@.len()
                        && is_sent_as(thread.turns@[a].items@[b], client_id);
                assert(is_sent_as(thread.turns@[a].items@[b], client_id));
            }
        }
    }
    let mut submission_ids: Vec<Uuid> = Vec::new();
    let mut k: usize = 0;
    while k < client_ids.len()
        invariant
            k <= client_ids@.len(),
            forall|client_id: Seq<char>|
                lists_text(client_ids@, client_id) == #[trigger] thread_holds(*thread, client_id),
            forall|id: Uuid| #[trigger]
                submission_ids@.contains(id) ==> exists|client_id: Seq<char>|
                    #[trigger] thread_holds(*thread, client_id) && parsed_uuid(
                        client_id_tail(client_id),
                    ) == Some(id),
            forall|j: int|
                0 <= j < k ==> match parsed_uuid(client_id_tail((#[trigger] client_ids@[j])@)) {
                    Some(id) => submission_ids@.contains(id),
                    None => true,
                },
            forall|j: int, id: Uuid|
                0 <= j < k && (#[trigger] client_ids@[j])@ == #[trigger] client_message_id(id)
                    ==> submission_ids@.contains(id),
        decreases client_ids@.len() - k,
    {
        let ghost before = submission_ids@;
        assert(lists_text(client_ids@, client_ids@[k as int]@));
        assert(thread_holds(*thread, client_ids@[k as int]@));
        assert(is_our_client_id(client_ids@[k as int]@));
        proof {
            assert forall|id: Uuid|
                client_ids@[k as int]@ == #[trigger] client_message_id(id) implies hyphenated_text(
                id,
            ) == client_id_tail(client_ids@[k as int]@) by {
                assert(client_id_tail(client_message_id(id)) =~= hyphenated_text(id));
            }
        }
        if let Some(tail) = our_client_id_tail(client_ids[k].as_str()) {
            if let Some(id) = parse_uuid(tail) {
                if !lists(&submission_ids, id) {
                    submission_ids.push(id);
                    assert(submission_ids@[before.len() as int] == id);
                    assert forall|other: Uuid| before.contains(
                        other,
                    ) implies #[trigger] submission_ids@.contains(other) by {
                        let at = before.index_of(other);
                        assert(submission_ids@[at] == other);
                    }
                    assert forall|other: Uuid| #[trigger] submission_ids@.contains(
                        other,
                    ) implies other == id || before.contains(other) by {
                        let at = submission_ids@.index_of(other);
                        if at < before.len() {
                            assert(before[at] == other);
                        }
                    }
                }
            }
        }
        k += 1;
    }
    proof {
        assert forall|id: Uuid| (exists|client_id: Seq<char>|
            #[trigger] thread_holds(*thread, client_id) && parsed_uuid(client_id_tail(client_id))
                == Some(id)) implies #[trigger] submission_ids@.contains(id) by {
            let client_id = choose|client_id: Seq<char>|
                #[trigger] thread_holds(*thread, client_id) && parsed_uuid(
                    client_id_tail(client_id),
                ) == Some(id);
            assert(lists_text(client_ids@, client_id));
            let j = choose|j: int| 0 <= j < client_ids@.len() && client_ids@[j]@ == client_id;
            assert(client_ids@[j]@ == client_id);
        }
        assert forall|id: Uuid|
            thread_holds(*thread, #[trigger] client_message_id(id)) implies submission_ids@.contains(
            id,
        ) by {
            let client_id = client_message_id(id);
            assert(lists_text(client_ids@, client_id));
            let j = choose|j: int| 0 <= j < client_ids@.len() && client_ids@[j]@ == client_id;
            assert(client_ids@[j]@ == client_id);
        }
    }
    (client_ids, submission_ids)
}

/// How a look at a pending submission ends.
#[derive(Clone, Copy, Debug, PartialEq, Eq, Structural)]
pub enum PendingEnd {
    /// It stays pending.
    Wait,
    /// Its message is in model history, and nothing is left to do locally.
    Commit,
    /// Its message will not come into model history.
    Abandon,
    /// Its message is in model history; the exact draft is to be cleared first.
    ClearDraft,
}

/// How a pending submission ends once its message is in model history: a draft that is still to
/// be cleared is cleared where its thread is shown, unless it has become the user's own.
pub open spec fn notified_end(
    pending: PendingComposerSubmissionCommit,
    shown: Option<String>,
    fences: Seq<SubmitFence>,
) -> PendingEnd {
    match pending.external_commit {
        None => PendingEnd::Commit,
        Some(commit) => if !is_thread(shown, pending.submission.thread_id@) {
            PendingEnd::Wait
        } else if is_let_go(fences, commit.fence) {
            PendingEnd::Commit
        } else {
            PendingEnd::ClearDraft
        },
    }
}

fn decide_notified_end(
    pending: &PendingComposerSubmissionCommit,
    shown: &Option<String>,
    fences: &FenceTable,
) -> (end: PendingEnd)
    ensures
        end == notified_end(*pending, *shown, fences.fences@),
{
    match &pending.external_commit {
        None => PendingEnd::Commit,
        Some(commit) => if !names_thread(shown, pending.submission.thread_id()) {
            PendingEnd::Wait
        } else if commit.local_clear_relinquished(fences) {
            PendingEnd::Commit
        } else {
            PendingEnd::ClearDraft
        },
    }
}

/// What pending submissions are looked at for.
pub enum PendingQuestion {
    /// Those whose message is in model history and whose draft was not cleared.
    Notified,
    /// Those of a turn that ended.
    TurnEnded { thread_id: String, turn_id: String },
}

/// How a submission ends under a question.
pub open spec fn verdict(
    question: PendingQuestion,
    shown: Option<String>,
    fences: Seq<SubmitFence>,
    pending: PendingComposerSubmissionCommit,
) -> PendingEnd {
    match question {
        PendingQuestion::Notified => if pending.item_committed && pending.external_commit is Some {
            notified_end(pending, shown, fences)
        } else {
            PendingEnd::Wait
        },
        PendingQuestion::TurnEnded { thread_id, turn_id } => if !pending.item_committed
            && pending.turn_id is Some && pending.turn_id->0@ == turn_id@
            && pending.submission.thread_id@ == thread_id@ {
            PendingEnd::Abandon
        } else {
            PendingEnd::Wait
        },
    }
}

fn judge(
    question: &PendingQuestion,
    shown: &Option<String>,
    fences: &FenceTable,
    pending: &PendingComposerSubmissionCommit,
) -> (end: PendingEnd)
    ensures
        end == verdict(*question, *shown, fences.fences@, *pending),
{
    match question {
        PendingQuestion::Notified => if pending.item_committed && pending.external_commit.is_some() {
            decide_notified_end(pending, shown, fences)
        } else {
            PendingEnd::Wait
        },
        PendingQuestion::TurnEnded { thread_id, turn_id } => {
            let same_turn: bool = match &pending.turn_id {
                Some(pending_turn) => same_text(pending_turn.as_str(), turn_id.as_str()),
                None => false,
            };
            if !pending.item_committed && same_turn && same_text(
                pending.submission.thread_id(),
                thread_id.as_str(),
            ) {
                PendingEnd::Abandon
            } else {
                PendingEnd::Wait
            }
        },
    }
}

/// What a look at pending submissions comes to.
pub struct Examined {
    pub pending: Seq<(Uuid, PendingComposerSubmissionCommit)>,
    pub transitions: Seq<TransitionView>,
    pub to_clear: Seq<Uuid>,
}

/// A submission with its message noted as being in model history.
pub open spec fn noted_committed(
    pending: PendingComposerSubmissionCommit,
) -> PendingComposerSubmissionCommit {
    PendingComposerSubmissionCommit { item_committed: true, ..pending }
}

/// What is told of a submission that ends.
pub open spec fn end_told(end: PendingEnd, submission: SubmissionView) -> Seq<TransitionView> {
    match end {
        PendingEnd::Commit => seq![TransitionView::Committed(submission)],
        PendingEnd::Abandon => seq![TransitionView::Abandoned(submission)],
        _ => Seq::empty(),
    }
}

/// The submission stays pending.
pub open spec fn stays(end: PendingEnd) -> bool {
    end == PendingEnd::Wait || end == PendingEnd::ClearDraft
}

/// What a look at the submissions `entries` comes to: those that ended are gone, and what became
/// of each is noted in order.
pub open spec fn examined(
    question: PendingQuestion,
    shown: Option<String>,
    fences: Seq<SubmitFence>,
    entries: Seq<(Uuid, PendingComposerSubmissionCommit)>,
) -> Examined
    decreases entries.len(),
{
    if entries.len() == 0 {
        Examined { pending: Seq::empty(), transitions: Seq::empty(), to_clear: Seq::empty() }
    } else {
        let earlier = examined(question, shown, fences, entries.drop_last());
        let (id, pending) = entries.last();
        let end = verdict(question, shown, fences, pending);
        Examined {
            pending: if stays(end) {
                earlier.pending.push((id, pending))
            } else {
                earlier.pending
            },
            transitions: earlier.transitions + end_told(end, pending.submission@),
            to_clear: if end == PendingEnd::ClearDraft {
                earlier.to_clear.push(id)
            } else {
                earlier.to_clear
            },
        }
    }
}

/// What stays pending keeps its place, and was pending before.
proof fn examined_keeps_distinct(
    question: PendingQuestion,
    shown: Option<String>,
    fences: Seq<SubmitFence>,
    entries: Seq<(Uuid, PendingComposerSubmissionCommit)>,
)
    requires
        distinct(entries),
    ensures
        distinct(examined(question, shown, fences, entries).pending),
        examined(question, shown, fences, entries).pending.len() <= entries.len(),
        forall|i: int|
            0 <= i < examined(question, shown, fences, entries).pending.len() ==> (exists|k: int|
                0 <= k < entries.len() && (#[trigger] entries[k]).0 == (
                #[trigger] examined(question, shown, fences, entries).pending[i]).0 && entries[
                    k
                ].1.submission == examined(question, shown, fences, entries).pending[
                    i
                ].1.submission),
    decreases entries.len(),
{
    if entries.len() > 0 {
        let shorter = entries.drop_last();
        let last = entries.len() - 1;
        assert forall|i: int, j: int| 0 <= i < j < shorter.len() implies (
        #[trigger] shorter[i]).0 != (#[trigger] shorter[j]).0 by {
            assert(entries[i].0 != entries[j].0);
        }
        examined_keeps_distinct(question, shown, fences, shorter);
        let before = examined(question, shown, fences, shorter).pending;
        let now = examined(question, shown, fences, entries).pending;
        assert forall|i: int| 0 <= i < now.len() implies exists|k: int|
            0 <= k < entries.len() && (#[trigger] entries[k]).0 == (#[trigger] now[i]).0
                && entries[k].1.submission == now[i].1.submission by {
            if i < before.len() {
                assert(now[i] == before[i]);
                let k = choose|k: int|
                    0 <= k < shorter.len() && (#[trigger] shorter[k]).0 == before[i].0 && shorter[
                        k
                    ].1.submission == before[i].1.submission;
                assert(entries[k] == shorter[k]);
            } else {
                assert(entries[last].0 == now[i].0);
            }
        }
        assert forall|i: int, j: int| 0 <= i < j < now.len() implies (#[trigger] now[i]).0 != (
        #[trigger] now[j]).0 by {
            if j < before.len() {
                assert(before[i].0 != before[j].0);
            } else {
                assert(now[i] == before[i]);
                let k = choose|k: int|
                    0 <= k < shorter.len() && (#[trigger] shorter[k]).0 == before[i].0 && shorter[
                        k
                    ].1.submission == before[i].1.submission;
                assert(entries[k].0 != entries[last].0);
            }
        }
    }
}

impl App {
    /// Every pending submission is filed once, under its own identifier.
    pub open spec fn well_formed(self) -> bool {
        let entries = self.pending_composer_submissions.entries@;
        &&& distinct(entries)
        &&& forall|i: int|
            0 <= i < entries.len() ==> (#[trigger] entries[i]).1.submission.submission_id
                == entries[i].0
    }

    /// The pending submissions.
    pub open spec fn pending(self) -> Seq<(Uuid, PendingComposerSubmissionCommit)> {
        self.pending_composer_submissions.entries@
    }

    /// What became of submissions, for the control plane to follow.
    pub open spec fn transitions(self) -> Seq<TransitionView> {
        transition_views(self.composer_submission_transitions@)
    }

    /// `after` differs from `self` at most in pending submissions and transitions.
    pub open spec fn same_threads(self, after: Self) -> bool {
        after == (App {
            pending_composer_submissions: after.pending_composer_submissions,
            composer_submission_transitions: after.composer_submission_transitions,
            ..self
        })
    }

    /// What a look at the pending submissions changes, and which drafts are then to be cleared.
    pub open spec fn examine_step(
        self,
        after: Self,
        question: PendingQuestion,
        fences: Seq<SubmitFence>,
        to_clear: Seq<Uuid>,
    ) -> bool {
        let seen = examined(question, self.chat_widget.thread_id, fences, self.pending());
        &&& self.same_threads(after)
        &&& after.pending() == seen.pending
        &&& after.transitions() == self.transitions() + seen.transitions
        &&& to_clear == seen.to_clear
    }

    fn examine_pending(&mut self, question: &PendingQuestion, fences: &FenceTable) -> (to_clear:
        Vec<Uuid>)
        requires
            old(self).well_formed(),
        ensures
            final(self).well_formed(),
            old(self).examine_step(*final(self), *question, fences.fences@, to_clear@),
    {
        let ghost entries = self.pending();
        let ghost shown = self.chat_widget.thread_id;
        let ghost mut seen: int = 0;
        let mut to_clear: Vec<Uuid> = Vec::new();
        let mut at: usize = 0;
        proof {
            assert(entries.take(0) =~= Seq::<(Uuid, PendingComposerSubmissionCommit)>::empty());
            assert(self.transitions() + Seq::<TransitionView>::empty() =~= self.transitions());
        }
        while at < self.pending_composer_submissions.entries.len()
            invariant
                entries == old(self).pending(),
                shown == old(self).chat_widget.thread_id,
                old(self).same_threads(*self),
                0 <= seen <= entries.len(),
                at <= self.pending().len(),
                at == examined(*question, shown, fences.fences@, entries.take(seen)).pending.len(),
                self.pending() =~= examined(
                    *question,
                    shown,
                    fences.fences@,
                    entries.take(seen),
                ).pending + entries.subrange(seen, entries.len() as int),
                self.transitions() == old(self).transitions() + examined(
                    *question,
                    shown,
                    fences.fences@,
                    entries.take(seen),
                ).transitions,
                to_clear@ == examined(
                    *question,
                    shown,
                    fences.fences@,
                    entries.take(seen),
                ).to_clear,
            decreases entries.len() - seen,
        {
            proof {
                assert(self.pending()[at as int] == entries[seen]);
                assert(entries.take(seen + 1).drop_last() =~= entries.take(seen));
                assert(entries.take(seen + 1).last() == entries[seen]);
            }
            let id: Uuid = self.pending_composer_submissions.entries[at].0;
            let end: PendingEnd = judge(
                question,
                &self.chat_widget.thread_id,
                fences,
                &self.pending_composer_submissions.entries[at].1,
            );
            let ghost transitions = self.transitions();
            let ghost submission = entries[seen].1.submission@;
            match end {
                PendingEnd::Wait => {
                    at += 1;
                },
                PendingEnd::ClearDraft => {
                    to_clear.push(id);
                    at += 1;
                },
                PendingEnd::Commit => {
                    let (_, pending) = self.pending_composer_submissions.entries.remove(at);
                    self.composer_submission_transitions.push(
                        ComposerSubmissionTransition::Committed(pending.submission),
                    );
                    assert(self.transitions() =~= transitions.push(
                        TransitionView::Committed(submission),
                    ));
                },
                PendingEnd::Abandon => {
                    let (_, pending) = self.pending_composer_submissions.entries.remove(at);
                    self.composer_submission_transitions.push(
                        ComposerSubmissionTransition::Abandoned(pending.submission),
                    );
                    assert(self.transitions() =~= transitions.push(
                        TransitionView::Abandoned(submission),
                    ));
                },
            }
            proof {
                let earlier = examined(*question, shown, fences.fences@, entries.take(seen));
                let now = examined(*question, shown, fences.fences@, entries.take(seen + 1));
                assert(self.transitions() =~= transitions + end_told(end, submission));
                assert(self.transitions() =~= old(self).transitions() + now.transitions);
                seen = seen + 1;
            }
        }
        proof {
            assert(entries.take(seen) =~= entries);
            examined_keeps_distinct(*question, shown, fences.fences@, entries);
            let kept = examined(*question, shown, fences.fences@, entries).pending;
            assert(self.pending() =~= kept);
            assert forall|i: int| 0 <= i < kept.len() implies (
            #[trigger] kept[i]).1.submission.submission_id == kept[i].0 by {
                let k = choose|k: int|
                    0 <= k < entries.len() && (#[trigger] entries[k]).0 == kept[i].0 && entries[
                        k
                    ].1.submission == kept[i].1.submission;
                assert(entries[k].1.submission.submission_id == entries[k].0);
            }
        }
        to_clear
    }

    /// Settles what can be settled now that the shown thread or its draft may have changed. Which
    /// drafts are still to be cleared is handed back.
    pub fn resolve_notified_composer_submissions_for_active_thread(
        &mut self,
        fences: &FenceTable,
    ) -> (to_clear: Vec<Uuid>)
        requires
            old(self).well_formed(),
        ensures
            final(self).well_formed(),
            old(self).examine_step(
                *final(self),
                PendingQuestion::Notified,
                fences.fences@,
                to_clear@,
            ),
    {
        self.examine_pending(&PendingQuestion::Notified, fences)
    }

    /// Finishes a terminal event: the control plane looks at the draft, and submissions that
    /// waited for this thread settle.
    pub fn finish_composer_tui_event<T: ComposerControlTarget>(
        &mut self,
        state: &mut ComposerControlState,
        target: &T,
    ) -> (to_clear: Vec<Uuid>)
        requires
            old(self).well_formed(),
            old(state).well_formed(),
        ensures
            final(self).well_formed(),
            final(state).well_formed(),
            old(state).finish_event_step(*final(state), target),
            old(self).examine_step(
                *final(self),
                PendingQuestion::Notified,
                final(state).fences.fences@,
                to_clear@,
            ),
    {
        state.finish_tui_event(target);
        self.resolve_notified_composer_submissions_for_active_thread(&state.fences)
    }
}

/// The first pending submission from `from` on that was sent under `client_id`; the number of
/// entries where there is none.
pub open spec fn sent_as_index(
    entries: Seq<(Uuid, PendingComposerSubmissionCommit)>,
    client_id: Seq<char>,
    from: nat,
) -> nat
    decreases entries.len() - from,
{
    if from >= entries.len() {
        entries.len()
    } else if client_message_id(entries[from as int].0) == client_id {
        from
    } else {
        sent_as_index(entries, client_id, from + 1)
    }
}

/// Two submissions are not sent under the same client identity.
pub proof fn client_message_id_injective(a: Uuid, b: Uuid)
    requires
        client_message_id(a) == client_message_id(b),
    ensures
        a == b,
{
    let prefix = "koenig-composer-"@;
    let x = client_message_id(a);
    let y = client_message_id(b);
    assert(x.skip(prefix.len() as int) =~= hyphenated_text(a));
    assert(y.skip(prefix.len() as int) =~= hyphenated_text(b));
    hyphenated_text_injective(a, b);
}

/// A client identity that we gave is one of ours, and what follows its prefix is the identifier.
pub proof fn client_message_id_is_ours(id: Uuid)
    ensures
        is_our_client_id(client_message_id(id)),
        client_id_tail(client_message_id(id)) == hyphenated_text(id),
{
    let prefix = "koenig-composer-"@;
    let x = client_message_id(id);
    assert(x.take(prefix.len() as int) =~= prefix);
    assert(x.skip(prefix.len() as int) =~= hyphenated_text(id));
}

/// What settling one submission came to.
#[derive(Clone, Copy, Debug, PartialEq, Eq, Structural)]
pub enum NotifiedOutcome {
    /// It is not known, or it still waits.
    Unsettled,
    /// Its message is in model history, and it is no longer pending.
    Committed,
    /// Its message will not come into model history, and it is no longer pending.
    Abandoned,
    /// The exact draft of this submission is to be cleared first.
    ClearDraft(Uuid),
}

/// What a finished clearing shows: effects of the widget where the draft was cleared, a message
/// where it could not be.
pub enum ClearReport {
    Nothing,
    Cleared(Vec<WidgetEffect>),
    Failed(String),
}

impl App {
    /// The place of the pending submission that was sent under `client_id`.
    fn sent_as_position(&self, client_id: &str) -> (at: usize)
        ensures
            at == sent_as_index(self.pending(), client_id@, 0),
            at <= self.pending().len(),
    {
        let mut i: usize = 0;
        while i < self.pending_composer_submissions.entries.len()
            invariant
                i <= self.pending().len(),
                sent_as_index(self.pending(), client_id@, 0) == sent_as_index(
                    self.pending(),
                    client_id@,
                    i as nat,
                ),
            decreases self.pending().len() - i,
        {
            let id: Uuid = self.pending_composer_submissions.entries[i].0;
            if same_text(client_message_id_of(id).as_str(), client_id) {
                return i;
            }
            i += 1;
        }
        i
    }

    /// What settling the submission at `at` answers and changes.
    pub open spec fn resolve_step(
        self,
        after: Self,
        at: nat,
        fences: Seq<SubmitFence>,
        outcome: NotifiedOutcome,
    ) -> bool {
        &&& self.same_threads(after)
        &&& if at >= self.pending().len() || !self.pending()[at as int].1.item_committed {
            &&& outcome == NotifiedOutcome::Unsettled
            &&& after == self
        } else {
            let (id, pending) = self.pending()[at as int];
            match notified_end(pending, self.chat_widget.thread_id, fences) {
                PendingEnd::Commit => {
                    &&& outcome == NotifiedOutcome::Committed
                    &&& after.pending() == self.pending().remove(at as int)
                    &&& after.transitions() == self.transitions().push(
                        TransitionView::Committed(pending.submission@),
                    )
                },
                PendingEnd::ClearDraft => {
                    &&& outcome == NotifiedOutcome::ClearDraft(id)
                    &&& after == self
                },
                _ => {
                    &&& outcome == NotifiedOutcome::Unsettled
                    &&& after == self
                },
            }
        }
    }

    /// Removing a pending submission keeps the others filed under their own identifiers.
    proof fn remove_keeps_well_formed(before: Self, after: Self, at: int)
        requires
            before.well_formed(),
            0 <= at < before.pending().len(),
            after.pending() == before.pending().remove(at),
        ensures
            after.well_formed(),
    {
        let entries = before.pending();
        let rest = after.pending();
        assert forall|i: int| 0 <= i < rest.len() implies #[trigger] rest[i] == entries[if i < at {
            i
        } else {
            i + 1
        }] by {}
        assert forall|i: int, j: int| 0 <= i < j < rest.len() implies (#[trigger] rest[i]).0 != (
        #[trigger] rest[j]).0 by {}
    }

    /// Settles a submission whose message is in model history.
    pub fn resolve_notified_composer_submission(&mut self, client_id: &str, fences: &FenceTable) -> (
    outcome: NotifiedOutcome)
        requires
            old(self).well_formed(),
        ensures
            final(self).well_formed(),
            old(self).resolve_step(
                *final(self),
                sent_as_index(old(self).pending(), client_id@, 0),
                fences.fences@,
                outcome,
            ),
    {
        let at: usize = self.sent_as_position(client_id);
        if at >= self.pending_composer_submissions.entries.len() {
            return NotifiedOutcome::Unsettled;
        }
        if !self.pending_composer_submissions.entries[at].1.item_committed {
            return NotifiedOutcome::Unsettled;
        }
        let id: Uuid = self.pending_composer_submissions.entries[at].0;
        match decide_notified_end(
            &self.pending_composer_submissions.entries[at].1,
            &self.chat_widget.thread_id,
            fences,
        ) {
            PendingEnd::Commit => {
                let ghost before = *self;
                let (_, pending) = self.pending_composer_submissions.entries.remove(at);
                self.composer_submission_transitions.push(
                    ComposerSubmissionTransition::Committed(pending.submission),
                );
                proof {
                    Self::remove_keeps_well_formed(before, *self, at as int);
                    assert(self.transitions() =~= before.transitions().push(
                        TransitionView::Committed(before.pending()[at as int].1.submission@),
                    ));
                }
                NotifiedOutcome::Committed
            },
            PendingEnd::ClearDraft => NotifiedOutcome::ClearDraft(id),
            _ => NotifiedOutcome::Unsettled,
        }
    }

    /// Goes on with a submission whose draft was to be cleared; `draft_cleared` is what the
    /// composer answered.
    pub fn finish_notified_clear(
        &mut self,
        submission_id: Uuid,
        fences: &FenceTable,
        draft_cleared: bool,
    ) -> (report: ClearReport)
        requires
            old(self).well_formed(),
        ensures
            final(self).well_formed(),
            old(self).clear_step(
                *final(self),
                submission_id,
                fences.fences@,
                draft_cleared,
                report,
            ),
    {
        let at: usize = match self.pending_composer_submissions.position(submission_id) {
            Some(at) => at,
            None => return ClearReport::Nothing,
        };
        let effects: Option<Vec<WidgetEffect>> =
            match &self.pending_composer_submissions.entries[at].1.external_commit {
            Some(commit) => self.chat_widget.commit_native_composer_submit(
                commit,
                fences,
                draft_cleared,
            ),
            None => return ClearReport::Nothing,
        };
        match effects {
            None => ClearReport::Failed(
                String::from_str(
                    "Koenig send committed, but its exact retained draft could not be cleared. Submission remains fenced.",
                ),
            ),
            Some(effects) => {
                let ghost before = *self;
                let (_, pending) = self.pending_composer_submissions.entries.remove(at);
                self.composer_submission_transitions.push(
                    ComposerSubmissionTransition::Committed(pending.submission),
                );
                proof {
                    Self::remove_keeps_well_formed(before, *self, at as int);
                    assert(self.transitions() =~= before.transitions().push(
                        TransitionView::Committed(before.pending()[at as int].1.submission@),
                    ));
                }
                ClearReport::Cleared(effects)
            },
        }
    }

    /// What `finish_notified_clear` answers and changes.
    pub open spec fn clear_step(
        self,
        after: Self,
        submission_id: Uuid,
        fences: Seq<SubmitFence>,
        draft_cleared: bool,
        report: ClearReport,
    ) -> bool {
        let at = index_of(self.pending(), submission_id);
        let pending = filed(self.pending(), submission_id);
        if !holds(self.pending(), submission_id) || pending.external_commit is None {
            report is Nothing && after == self
        } else if !self.chat_widget.admits(pending.external_commit->0, fences) || !draft_cleared {
            &&& after == self
            &&& report matches ClearReport::Failed(message)
            &&& message@
                == "Koenig send committed, but its exact retained draft could not be cleared. Submission remains fenced."@
        } else {
            &&& report matches ClearReport::Cleared(effects)
            &&& self.chat_widget.commit_step(
                after.chat_widget,
                pending.external_commit->0,
                effects@,
            )
            &&& after.pending() == self.pending().remove(at)
            &&& after.transitions() == self.transitions().push(
                TransitionView::Committed(pending.submission@),
            )
            &&& after == (App {
                chat_widget: after.chat_widget,
                pending_composer_submissions: after.pending_composer_submissions,
                composer_submission_transitions: after.composer_submission_transitions,
                ..self
            })
        }
    }

    /// `self` with the message of the submission at `at` noted as being in model history.
    pub open spec fn commit_noted(self, after: Self, at: nat) -> bool {
        let (id, pending) = self.pending()[at as int];
        &&& after.pending() == self.pending().update(at as int, (id, noted_committed(pending)))
        &&& after == (App {
            pending_composer_submissions: after.pending_composer_submissions,
            ..self
        })
    }

    /// What a notification answers and changes for composer submissions.
    pub open spec fn notification_step(
        self,
        after: Self,
        notification: ServerNotification,
        fences: Seq<SubmitFence>,
        outcome: NotifiedOutcome,
    ) -> bool {
        match notification {
            ServerNotification::ItemCompleted {
                item: ThreadItem::UserMessage { client_id: Some(client_id) },
            } => {
                let at = sent_as_index(self.pending(), client_id@, 0);
                if at >= self.pending().len() {
                    outcome == NotifiedOutcome::Unsettled && after == self
                } else {
                    exists|noted: App|
                        #[trigger] self.commit_noted(noted, at) && noted.resolve_step(
                            after,
                            at,
                            fences,
                            outcome,
                        )
                }
            },
            ServerNotification::TurnCompleted { thread_id, turn_id } => {
                &&& outcome == NotifiedOutcome::Unsettled
                &&& self.examine_step(
                    after,
                    PendingQuestion::TurnEnded { thread_id, turn_id },
                    fences,
                    Seq::empty(),
                )
            },
            _ => outcome == NotifiedOutcome::Unsettled && after == self,
        }
    }

    /// Follows what the app-server says of composer submissions: a completed user message commits
    /// its submission, and a turn that ends abandons those that never showed up in it.
    pub fn note_composer_submission_notification(
        &mut self,
        notification: &ServerNotification,
        fences: &FenceTable,
    ) -> (outcome: NotifiedOutcome)
        requires
            old(self).well_formed(),
        ensures
            final(self).well_formed(),
            old(self).notification_step(*final(self), *notification, fences.fences@, outcome),
    {
        match notification {
            ServerNotification::ItemCompleted { item } => {
                let client_id: &String = match item {
                    ThreadItem::UserMessage { client_id: Some(client_id) } => client_id,
                    _ => return NotifiedOutcome::Unsettled,
                };
                let at: usize = self.sent_as_position(client_id.as_str());
                if at >= self.pending_composer_submissions.entries.len() {
                    return NotifiedOutcome::Unsettled;
                }
                let ghost before = *self;
                self.pending_composer_submissions.entries[at].1.item_committed = true;
                let ghost noted = *self;
                proof {
                    let (id, pending) = before.pending()[at as int];
                    assert(noted.pending() =~= before.pending().update(
                        at as int,
                        (id, noted_committed(pending)),
                    ));
                    assert(before.commit_noted(noted, at as nat));
                    same_places(before.pending(), noted.pending());
                    assert forall|i: int| 0 <= i < noted.pending().len() implies (
                    #[trigger] noted.pending()[i]).1.submission.submission_id
                        == noted.pending()[i].0 by {
                        assert(before.pending()[i].1.submission.submission_id
                            == before.pending()[i].0);
                    }
                    sent_as_unmoved(before.pending(), noted.pending(), client_id@, 0);
                }
                self.resolve_notified_composer_submission(client_id.as_str(), fences)
            },
            ServerNotification::TurnCompleted { thread_id, turn_id } => {
                let question = PendingQuestion::TurnEnded {
                    thread_id: thread_id.clone(),
                    turn_id: turn_id.clone(),
                };
                let to_clear: Vec<Uuid> = self.examine_pending(&question, fences);
                proof {
                    turn_end_clears_nothing(
                        question,
                        old(self).chat_widget.thread_id,
                        fences.fences@,
                        old(self).pending(),
                    );
                    assert(to_clear@ =~= Seq::<Uuid>::empty());
                }
                NotifiedOutcome::Unsettled
            },
            _ => NotifiedOutcome::Unsettled,
        }
    }
}

/// A submission is found where it was while its identifier stays in place.
proof fn sent_as_unmoved(
    before: Seq<(Uuid, PendingComposerSubmissionCommit)>,
    after: Seq<(Uuid, PendingComposerSubmissionCommit)>,
    client_id: Seq<char>,
    from: nat,
)
    requires
        before.len() == after.len(),
        forall|i: int| 0 <= i < before.len() ==> (#[trigger] after[i]).0 == before[i].0,
    ensures
        sent_as_index(after, client_id, from) == sent_as_index(before, client_id, from),
    decreases before.len() - from,
{
    if from < before.len() {
        assert(after[from as int].0 == before[from as int].0);
        sent_as_unmoved(before, after, client_id, from + 1);
    }
}

/// A turn that ends leaves no draft to clear.
proof fn turn_end_clears_nothing(
    question: PendingQuestion,
    shown: Option<String>,
    fences: Seq<SubmitFence>,
    entries: Seq<(Uuid, PendingComposerSubmissionCommit)>,
)
    requires
        question is TurnEnded,
    ensures
        examined(question, shown, fences, entries).to_clear.len() == 0,
    decreases entries.len(),
{
    if entries.len() > 0 {
        turn_end_clears_nothing(question, shown, fences, entries.drop_last());
    }
}

/// The submissions of `entries` that belong to a thread, in order.
pub open spec fn submissions_of(
    entries: Seq<(Uuid, PendingComposerSubmissionCommit)>,
    thread_id: Seq<char>,
) -> Seq<Uuid>
    decreases entries.len(),
{
    if entries.len() == 0 {
        Seq::empty()
    } else {
        let earlier = submissions_of(entries.drop_last(), thread_id);
        if entries.last().1.submission.thread_id@ == thread_id {
            earlier.push(entries.last().0)
        } else {
            earlier
        }
    }
}

/// The entries with `pending` filed under `id`, in place of what was filed there.
pub open spec fn with_pending(
    entries: Seq<(Uuid, PendingComposerSubmissionCommit)>,
    id: Uuid,
    pending: PendingComposerSubmissionCommit,
) -> Seq<(Uuid, PendingComposerSubmissionCommit)> {
    if holds(entries, id) {
        refiled(entries, id, pending)
    } else {
        entries.push((id, pending))
    }
}

/// How the app-server answered a dispatched submission.
pub enum DispatchReply {
    /// It took the message into this turn.
    Accepted(String),
    /// The dispatch ended otherwise.
    Ended(SubmissionDispatchOutcome),
    /// It did not answer in time.
    TimedOut,
}

/// What a finished dispatch shows: effects of the widget, or a message.
pub enum DispatchReport {
    Nothing,
    Committed(Vec<WidgetEffect>),
    Failed(String),
}

impl App {
    fn file_pending(&mut self, pending: PendingComposerSubmissionCommit)
        requires
            old(self).well_formed(),
        ensures
            final(self).well_formed(),
            final(self).pending() == with_pending(
                old(self).pending(),
                pending.submission.submission_id,
                pending,
            ),
            *final(self) == (App {
                pending_composer_submissions: final(self).pending_composer_submissions,
                ..*old(self)
            }),
    {
        let id: Uuid = pending.submission.submission_id;
        let ghost before = self.pending();
        match self.pending_composer_submissions.position(id) {
            Some(at) => {
                proof {
                    refiled_keeps_others(before, id, pending);
                }
                self.pending_composer_submissions.entries[at] = (id, pending);
                assert(self.pending() =~= refiled(before, id, pending));
                assert forall|i: int| 0 <= i < self.pending().len() implies (
                #[trigger] self.pending()[i]).1.submission.submission_id == self.pending()[i].0 by {
                    assert(before[i].1.submission.submission_id == before[i].0);
                }
            },
            None => {
                self.pending_composer_submissions.push(id, pending);
                assert forall|i: int| 0 <= i < self.pending().len() implies (
                #[trigger] self.pending()[i]).1.submission.submission_id == self.pending()[i].0 by {
                    if i < before.len() {
                        assert(before[i].1.submission.submission_id == before[i].0);
                    }
                }
            },
        }
    }

    /// Registers a submission that the app-server took into `turn_id`.
    pub fn register_pending_composer_submission(
        &mut self,
        submission: NativeComposerSubmission,
        turn_id: String,
    )
        requires
            old(self).well_formed(),
        ensures
            final(self).well_formed(),
            old(self).same_threads(*final(self)),
            final(self).pending() == with_pending(
                old(self).pending(),
                submission.submission_id,
                PendingComposerSubmissionCommit {
                    submission,
                    turn_id: Some(turn_id),
                    external_commit: None,
                    item_committed: false,
                },
            ),
            final(self).transitions() == old(self).transitions().push(
                TransitionView::Pending(submission@),
            ),
    {
        let copy: NativeComposerSubmission = submission.copied();
        self.file_pending(
            PendingComposerSubmissionCommit {
                submission,
                turn_id: Some(turn_id),
                external_commit: None,
                item_committed: false,
            },
        );
        self.composer_submission_transitions.push(ComposerSubmissionTransition::Pending(copy));
        assert(self.transitions() =~= old(self).transitions().push(
            TransitionView::Pending(submission@),
        ));
    }

    /// Starts a native submission: it is remembered before anything is sent. `thread_id` is the
    /// thread that the submission names, where that is a thread at all; it has to be the one that
    /// is shown.
    pub fn dispatch_native_composer_submit(
        &mut self,
        submission: &NativeComposerSubmission,
        commit: Option<NativeComposerCommit>,
        thread_id: &Option<String>,
    ) -> (begun: Result<(), SubmissionDispatchOutcome>)
        requires
            old(self).well_formed(),
        ensures
            final(self).well_formed(),
            begun is Ok == (*thread_id is Some && is_thread(
                old(self).active_thread_id,
                thread_id->0@,
            ) && is_thread(old(self).chat_widget.thread_id, thread_id->0@)),
            begun is Err ==> begun == Err::<(), _>(
                SubmissionDispatchOutcome::NotApplied(ErrorCode::ComposerUnavailable),
            ) && *final(self) == *old(self),
            begun is Ok ==> {
                let id = submission.submission_id;
                let pending = filed(final(self).pending(), id);
                &&& final(self).pending() == with_pending(old(self).pending(), id, pending)
                &&& pending.submission@ == submission@
                &&& pending.turn_id is None
                &&& pending.external_commit == commit
                &&& !pending.item_committed
                &&& *final(self) == (App {
                    pending_composer_submissions: final(self).pending_composer_submissions,
                    ..*old(self)
                })
            },
    {
        let refused = Err(SubmissionDispatchOutcome::NotApplied(ErrorCode::ComposerUnavailable));
        let thread_id: &String = match thread_id {
            Some(thread_id) => thread_id,
            None => return refused,
        };
        if !names_thread(&self.active_thread_id, thread_id.as_str()) || !names_thread(
            &self.chat_widget.thread_id,
            thread_id.as_str(),
        ) {
            return refused;
        }
        let pending = PendingComposerSubmissionCommit {
            submission: submission.copied(),
            turn_id: None,
            external_commit: commit,
            item_committed: false,
        };
        let ghost before = self.pending();
        let ghost id = submission.submission_id;
        self.file_pending(pending);
        proof {
            if holds(before, id) {
                refiled_keeps_others(before, id, pending);
            } else {
                index_is(self.pending(), before.len() as int);
            }
        }
        Ok(())
    }

    /// What `finish_native_composer_submit` answers and changes.
    pub open spec fn finish_dispatch_step(
        self,
        after: Self,
        submission: SubmissionView,
        reply: DispatchReply,
        fences: Seq<SubmitFence>,
        draft_cleared: bool,
        outcome: SubmissionDispatchOutcome,
        report: DispatchReport,
    ) -> bool {
        let id = submission.submission_id;
        match reply {
            DispatchReply::TimedOut => {
                &&& outcome == SubmissionDispatchOutcome::Unknown
                &&& report is Nothing
                &&& after == self
            },
            DispatchReply::Ended(ended) => {
                &&& outcome == ended
                &&& report is Nothing
                &&& after.pending() == if ended is NotApplied {
                    without(self.pending(), id)
                } else {
                    self.pending()
                }
                &&& after == (App {
                    pending_composer_submissions: after.pending_composer_submissions,
                    ..self
                })
            },
            DispatchReply::Accepted(turn_id) => {
                let known = holds(self.pending(), id);
                let pending = filed(self.pending(), id);
                let commit = if known {
                    pending.external_commit
                } else {
                    None
                };
                let cleared = commit is Some && self.chat_widget.admits(commit->0, fences)
                    && draft_cleared;
                let committed = cleared || (commit is None && submission.direct_lease_id is Some);
                &&& outcome == if committed {
                    SubmissionDispatchOutcome::Accepted
                } else {
                    SubmissionDispatchOutcome::AcceptedButUncommitted
                }
                &&& after.pending() == if known {
                    refiled(
                        self.pending(),
                        id,
                        PendingComposerSubmissionCommit {
                            turn_id: Some(turn_id),
                            external_commit: if committed {
                                None
                            } else {
                                commit
                            },
                            ..pending
                        },
                    )
                } else {
                    self.pending()
                }
                &&& after == (App {
                    chat_widget: after.chat_widget,
                    pending_composer_submissions: after.pending_composer_submissions,
                    ..self
                })
                &&& if cleared {
                    &&& report matches DispatchReport::Committed(effects)
                    &&& self.chat_widget.commit_step(after.chat_widget, commit->0, effects@)
                } else {
                    &&& after.chat_widget == self.chat_widget
                    &&& committed ==> report is Nothing
                    &&& !committed ==> {
                        &&& report matches DispatchReport::Failed(message)
                        &&& message@
                            == "Koenig send was accepted, but the exact draft could not be cleared. Automatic resubmission is disabled."@
                    }
                }
            },
        }
    }

    /// Finishes a native submission. A message that the app-server took is committed locally: the
    /// exact draft is cleared, or there was none to clear. `draft_cleared` is what the composer
    /// answered when it was asked to, which it is only where the commit is admitted.
    pub fn finish_native_composer_submit(
        &mut self,
        submission: &NativeComposerSubmission,
        reply: DispatchReply,
        fences: &FenceTable,
        draft_cleared: bool,
    ) -> (finished: (SubmissionDispatchOutcome, DispatchReport))
        requires
            old(self).well_formed(),
        ensures
            final(self).well_formed(),
            old(self).finish_dispatch_step(
                *final(self),
                submission@,
                reply,
                fences.fences@,
                draft_cleared,
                finished.0,
                finished.1,
            ),
    {
        let id: Uuid = submission.submission_id;
        let turn_id: String = match reply {
            DispatchReply::TimedOut => {
                return (SubmissionDispatchOutcome::Unknown, DispatchReport::Nothing);
            },
            DispatchReply::Ended(outcome) => {
                if let SubmissionDispatchOutcome::NotApplied(_) = outcome {
                    proof {
                        without_keeps_others(self.pending(), id);
                        if holds(self.pending(), id) {
                            let at = index_of(self.pending(), id);
                            let rest = self.pending().remove(at);
                            assert forall|i: int| 0 <= i < rest.len() implies (
                            #[trigger] rest[i]).1.submission.submission_id == rest[i].0 by {
                                let k = if i < at {
                                    i
                                } else {
                                    i + 1
                                };
                                assert(rest[i] == self.pending()[k]);
                            }
                        }
                    }
                    self.pending_composer_submissions.remove(id);
                }
                return (outcome, DispatchReport::Nothing);
            },
            DispatchReply::Accepted(turn_id) => turn_id,
        };
        let mut committed: bool = submission.is_direct();
        let mut effects: Option<Vec<WidgetEffect>> = None;
        if let Some(at) = self.pending_composer_submissions.position(id) {
            let ghost before = self.pending();
            let ghost pending = filed(before, id);
            if let Some(commit) = &self.pending_composer_submissions.entries[at].1.external_commit {
                effects =
                self.chat_widget.commit_native_composer_submit(commit, fences, draft_cleared);
                committed = effects.is_some();
            }
            self.pending_composer_submissions.entries[at].1.turn_id = Some(turn_id);
            if committed {
                self.pending_composer_submissions.entries[at].1.external_commit = None;
            }
            proof {
                let next = PendingComposerSubmissionCommit {
                    turn_id: Some(turn_id),
                    external_commit: if committed {
                        None
                    } else {
                        pending.external_commit
                    },
                    ..pending
                };
                refiled_keeps_others(before, id, next);
                assert(self.pending() =~= refiled(before, id, next));
                assert forall|i: int| 0 <= i < self.pending().len() implies (
                #[trigger] self.pending()[i]).1.submission.submission_id == self.pending()[i].0 by {
                    assert(before[i].1.submission.submission_id == before[i].0);
                }
            }
        }
        if committed {
            let report = match effects {
                Some(effects) => DispatchReport::Committed(effects),
                None => DispatchReport::Nothing,
            };
            (SubmissionDispatchOutcome::Accepted, report)
        } else {
            (
                SubmissionDispatchOutcome::AcceptedButUncommitted,
                DispatchReport::Failed(
                    String::from_str(
                        "Koenig send was accepted, but the exact draft could not be cleared. Automatic resubmission is disabled.",
                    ),
                ),
            )
        }
    }

    /// The pending submissions of a thread.
    pub fn thread_submissions(&self, thread_id: &str) -> (ids: Vec<Uuid>)
        requires
            self.well_formed(),
        ensures
            ids@ == submissions_of(self.pending(), thread_id@),
    {
        let mut ids: Vec<Uuid> = Vec::new();
        let mut i: usize = 0;
        assert(self.pending().take(0) =~= Seq::<(Uuid, PendingComposerSubmissionCommit)>::empty());
        while i < self.pending_composer_submissions.entries.len()
            invariant
                i <= self.pending().len(),
                ids@ == submissions_of(self.pending().take(i as int), thread_id@),
            decreases self.pending().len() - i,
        {
            proof {
                let longer = self.pending().take(i as int + 1);
                assert(longer.drop_last() =~= self.pending().take(i as int));
                assert(longer.last() == self.pending()[i as int]);
            }
            if same_text(
                self.pending_composer_submissions.entries[i].1.submission.thread_id(),
                thread_id,
            ) {
                ids.push(self.pending_composer_submissions.entries[i].0);
            }
            i += 1;
        }
        assert(self.pending().take(i as int) =~= self.pending());
        ids
    }

    /// What a rollback makes of a pending submission: where its message survives, it is handed
    /// over and committed as far as it can be, else it is abandoned.
    pub open spec fn roll_back_step(
        self,
        after: Self,
        submission_id: Uuid,
        surviving_client_ids: Seq<String>,
        fences: Seq<SubmitFence>,
        outcome: NotifiedOutcome,
    ) -> bool {
        let at = index_of(self.pending(), submission_id);
        let pending = filed(self.pending(), submission_id);
        let submission = pending.submission@;
        if !holds(self.pending(), submission_id) {
            outcome == NotifiedOutcome::Unsettled && after == self
        } else if !lists_text(surviving_client_ids, client_message_id(submission_id)) {
            &&& outcome == NotifiedOutcome::Abandoned
            &&& self.same_threads(after)
            &&& after.pending() == self.pending().remove(at)
            &&& after.transitions() == self.transitions().push(
                TransitionView::Abandoned(submission),
            )
        } else {
            let end = notified_end(pending, self.chat_widget.thread_id, fences);
            &&& outcome == match end {
                PendingEnd::Commit => NotifiedOutcome::Committed,
                PendingEnd::ClearDraft => NotifiedOutcome::ClearDraft(submission_id),
                _ => NotifiedOutcome::Unsettled,
            }
            &&& self.same_threads(after)
            &&& after.pending() == if end == PendingEnd::Commit {
                self.pending().remove(at)
            } else {
                refiled(self.pending(), submission_id, noted_committed(pending))
            }
            &&& after.transitions() == self.transitions().push(
                TransitionView::Pending(submission),
            ) + end_told(end, submission)
        }
    }

    /// Settles a pending submission of a thread that was rolled back to messages among which
    /// those with `surviving_client_ids` are ours. A draft that is to be cleared is gone on with by
    /// [`Self::finish_notified_clear`], before the next submission is looked at.
    pub fn roll_back_submission(
        &mut self,
        submission_id: Uuid,
        surviving_client_ids: &Vec<String>,
        fences: &FenceTable,
    ) -> (outcome: NotifiedOutcome)
        requires
            old(self).well_formed(),
        ensures
            final(self).well_formed(),
            old(self).roll_back_step(
                *final(self),
                submission_id,
                surviving_client_ids@,
                fences.fences@,
                outcome,
            ),
    {
        let at: usize = match self.pending_composer_submissions.position(submission_id) {
            Some(at) => at,
            None => return NotifiedOutcome::Unsettled,
        };
        let ghost before = *self;
        let ghost submission = before.pending()[at as int].1.submission@;
        if !finds_text(surviving_client_ids, client_message_id_of(submission_id).as_str()) {
            let (_, pending) = self.pending_composer_submissions.entries.remove(at);
            self.composer_submission_transitions.push(
                ComposerSubmissionTransition::Abandoned(pending.submission),
            );
            proof {
                Self::remove_keeps_well_formed(before, *self, at as int);
                assert(self.transitions() =~= before.transitions().push(
                    TransitionView::Abandoned(submission),
                ));
            }
            return NotifiedOutcome::Abandoned;
        }
        let end: PendingEnd = decide_notified_end(
            &self.pending_composer_submissions.entries[at].1,
            &self.chat_widget.thread_id,
            fences,
        );
        self.composer_submission_transitions.push(
            ComposerSubmissionTransition::Pending(
                self.pending_composer_submissions.entries[at].1.submission.copied(),
            ),
        );
        let ghost told = self.transitions();
        assert(told =~= before.transitions().push(TransitionView::Pending(submission)));
        match end {
            PendingEnd::Commit => {
                let (_, pending) = self.pending_composer_submissions.entries.remove(at);
                self.composer_submission_transitions.push(
                    ComposerSubmissionTransition::Committed(pending.submission),
                );
                proof {
                    Self::remove_keeps_well_formed(before, *self, at as int);
                    assert(self.transitions() =~= told + end_told(end, submission));
                }
                NotifiedOutcome::Committed
            },
            _ => {
                self.pending_composer_submissions.entries[at].1.item_committed = true;
                proof {
                    let next = noted_committed(before.pending()[at as int].1);
                    assert(self.pending() =~= refiled(before.pending(), submission_id, next));
                    same_places(before.pending(), self.pending());
                    assert forall|i: int| 0 <= i < self.pending().len() implies (
                    #[trigger] self.pending()[i]).1.submission.submission_id
                        == self.pending()[i].0 by {
                        assert(before.pending()[i].1.submission.submission_id
                            == before.pending()[i].0);
                    }
                    assert(self.transitions() =~= told + end_told(end, submission));
                }
                match end {
                    PendingEnd::ClearDraft => NotifiedOutcome::ClearDraft(submission_id),
                    _ => NotifiedOutcome::Unsettled,
                }
            },
        }
    }

    /// The control plane is told of a rollback of a thread, of which `thread` is left, and which
    /// submissions survive.
    pub open spec fn rollback_noted(
        self,
        after: Self,
        thread_id: Seq<char>,
        thread: Thread,
    ) -> bool {
        &&& self.same_threads(after)
        &&& after.pending() == self.pending()
        &&& after.transitions().len() == self.transitions().len() + 1
        &&& after.transitions().drop_last() == self.transitions()
        &&& after.transitions().last() matches TransitionView::ThreadRolledBack(rolled, left)
            && rolled == thread_id && forall|id: Uuid| #[trigger]
            left.contains(id) == (exists|client_id: Seq<char>|
                #[trigger] thread_holds(thread, client_id) && parsed_uuid(
                    client_id_tail(client_id),
                ) == Some(id)) && (thread_holds(thread, client_message_id(id)) ==> left.contains(
            id,
        ))
    }

    /// Tells the control plane of a rollback of a thread, of which `thread` is left.
    pub fn note_thread_rollback(&mut self, thread_id: &str, thread: &Thread)
        requires
            old(self).well_formed(),
        ensures
            final(self).well_formed(),
            old(self).rollback_noted(*final(self), thread_id@, *thread),
    {
        let (_, surviving_submission_ids) = surviving_composer_submission_ids(thread);
        self.composer_submission_transitions.push(
            ComposerSubmissionTransition::ThreadRolledBack {
                thread_id: String::from_str(thread_id),
                surviving_submission_ids,
            },
        );
        proof {
            assert(self.transitions() =~= old(self).transitions().push(
                TransitionView::ThreadRolledBack(thread_id@, surviving_submission_ids@),
            ));
            assert(self.transitions().drop_last() =~= old(self).transitions());
        }
    }
}

} // verus!
