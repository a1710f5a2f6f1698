//! What a submission keeps of the draft that it was made from.
use crate::ids::{hyphenated_text, is_version_4, simple_text, Uuid};
use crate::submission::{
    lease_views, leases_in, LeaseView, NativeComposerSubmission,
    SubmittedComposerLease,
};
use crate::text::text_at;
use vstd::prelude::*;
use vstd::string::*;

verus! {

/// What is owned of a text are those of the ranges that name text of it.
pub proof fn kept_leases(text: Seq<char>, leases: Seq<SubmittedComposerLease>, at: int)
    requires
        0 <= at < leases.len(),
    ensures
        text_at(text, leases[at]@.start, leases[at]@.end) is Some ==> leases_in(
            text,
            leases,
        ).contains(leases[at]@) && leases_in(text, leases).len() > 0,
        forall|k: int|
            0 <= k < leases_in(text, leases).len() ==> text_at(
                text,
                (#[trigger] leases_in(text, leases)[k]).start,
                leases_in(text, leases)[k].end,
            ) is Some,
    decreases leases.len(),
{
    let shorter = leases.drop_last();
    let earlier = leases_in(text, shorter);
    let now = leases_in(text, leases);
    if shorter.len() > 0 {
        let i = if at < shorter.len() {
            at
        } else {
            0
        };
        kept_leases(text, shorter, i);
    }
    if at < shorter.len() {
        assert(shorter[at] == leases[at]);
        if earlier.contains(leases[at]@) {
            let k = choose|k: int| 0 <= k < earlier.len() && earlier[k] == leases[at]@;
            assert(now[k] == leases[at]@);
        }
    } else if text_at(text, leases[at]@.start, leases[at]@.end) is Some {
        assert(now[now.len() - 1] == leases[at]@);
    }
}

/// The owned ranges are those of the draft that name text of it, in the draft's order.
pub proof fn kept_leases_are_filtered(text: Seq<char>, leases: Seq<SubmittedComposerLease>)
    ensures
        leases_in(text, leases) == leases.map_values(|lease: SubmittedComposerLease| lease@).filter(
            |lease: LeaseView| text_at(text, lease.start, lease.end) is Some,
        ),
    decreases leases.len(),
{
    reveal(Seq::filter);
    let views = leases.map_values(|lease: SubmittedComposerLease| lease@);
    if leases.len() > 0 {
        kept_leases_are_filtered(text, leases.drop_last());
        assert(views.drop_last() =~= leases.drop_last().map_values(
            |lease: SubmittedComposerLease| lease@,
        ));
    }
}

/// A submission keeps the text and the thread that it was made for, and, in order, those of the
/// owned ranges that name text of it; there is none where none does. It is made for the composer.
pub proof fn a_submission_keeps_what_names_its_text(
    thread_id: String,
    text: &str,
    leases: Vec<SubmittedComposerLease>,
    made: Option<NativeComposerSubmission>,
)
    requires
        call_ensures(NativeComposerSubmission::new, (thread_id, text, leases), made),
    ensures
        ({
            let kept = leases@.map_values(|lease: SubmittedComposerLease| lease@).filter(
                |lease: LeaseView| text_at(text@, lease.start, lease.end) is Some,
            );
            &&& made is Some <==> kept.len() > 0
            &&& made matches Some(submission) ==> {
                &&& lease_views(submission.leases@) == kept
                &&& submission.submitted_text@ == text@
                &&& submission.thread_id@ == thread_id@
                &&& submission.direct_lease_id is None
                &&& is_version_4(submission.submission_id)
            }
        }),
{
    kept_leases_are_filtered(text@, leases@);
}

/// A composer-free submission carries the reservation that it was made under, the identity that it
/// was given, and its text and thread; it owns no range of a draft.
pub proof fn a_direct_submission_names_its_reservation(
    submission_id: Uuid,
    lease_id: Uuid,
    thread_id: String,
    text: &str,
    made: NativeComposerSubmission,
    direct: bool,
)
    requires
        call_ensures(
            NativeComposerSubmission::new_direct,
            (submission_id, lease_id, thread_id, text),
            made,
        ),
        call_ensures(NativeComposerSubmission::is_direct, (&made,), direct),
    ensures
        made.submission_id == submission_id,
        made.direct_lease_id == Some(lease_id),
        made.thread_id == thread_id,
        made.submitted_text@ == text@,
        made.leases@.len() == 0,
        direct,
{
    assert(lease_views(made.leases@).len() == made.leases@.len());
    assert(made@.leases.len() == 0);
    assert(made@.submission_id == submission_id);
    assert(made@.direct_lease_id == Some(lease_id));
    assert(made@.submitted_text == text@);
}

/// What is read of a submission is what it holds, and only a composer-free one is direct.
pub proof fn a_submission_tells_what_it_holds(
    submission: NativeComposerSubmission,
    thread_id: &str,
    text: &str,
    id: Uuid,
    direct: bool,
    copy: NativeComposerSubmission,
)
    requires
        call_ensures(NativeComposerSubmission::thread_id, (&submission,), thread_id),
        call_ensures(NativeComposerSubmission::submitted_text, (&submission,), text),
        call_ensures(NativeComposerSubmission::submission_id, (&submission,), id),
        call_ensures(NativeComposerSubmission::is_direct, (&submission,), direct),
        call_ensures(NativeComposerSubmission::copied, (&submission,), copy),
    ensures
        thread_id@ == submission.thread_id@,
        text@ == submission.submitted_text@,
        id == submission.submission_id,
        direct <==> submission.direct_lease_id is Some,
        copy@ == submission@,
{
}

/// The identity of a message names its submission, and no other one. A receipt names the identity
/// of its message, under a key of its own.
pub proof fn a_receipt_names_its_message(
    a: NativeComposerSubmission,
    b: NativeComposerSubmission,
    id_a: String,
    id_b: String,
    receipt_a: (String, String),
    receipt_b: (String, String),
)
    requires
        call_ensures(NativeComposerSubmission::client_user_message_id, (&a,), id_a),
        call_ensures(NativeComposerSubmission::client_user_message_id, (&b,), id_b),
        call_ensures(NativeComposerSubmission::receipt_context, (&a,), receipt_a),
        call_ensures(NativeComposerSubmission::receipt_context, (&b,), receipt_b),
    ensures
        id_a@ == id_b@ <==> a.submission_id == b.submission_id,
        receipt_a.0@ == receipt_b.0@ <==> a.submission_id == b.submission_id,
        id_a@ == "koenig-composer-"@ + hyphenated_text(a.submission_id),
        receipt_a.0@ == "koenig_transcription_receipt_"@ + simple_text(a.submission_id),
        receipt_a.1@ == "Koenig submission receipt "@ + id_a@
            + ". The immediately following user message contains the Koenig-owned transcription associated with this receipt. A later Application-context correction naming this receipt mechanically amends only the explicitly identified owned range in that message."@,
{
    if id_a@ == id_b@ {
        crate::pending::client_message_id_injective(a.submission_id, b.submission_id);
    }
    if receipt_a.0@ == receipt_b.0@ {
        crate::send_laws::receipt_keys_are_distinct(a.submission_id, b.submission_id);
    }
}

} // verus!
