//! Provenance of one composer submission: which bytes of the submitted message are owned.
use crate::ids::{
    hyphenated, hyphenated_text, is_version_4, random_uuid, simple, simple_text, Uuid,
};
use crate::text::{byte_len, decimal, decimal_text, slice, text_at, utf8};
use std::ops::Range;
use vstd::prelude::*;
use vstd::string::*;
use vstd::utf8::*;

verus! {

/// The composer's own handle on a piece of owned text.
pub type ComposerLeaseId = u64;

/// An owned range of a message, as the composer hands it over on submit.
pub struct SubmittedComposerLease {
    pub id: ComposerLeaseId,
    pub range: Range<usize>,
}

/// An owned range of a submitted message.
pub struct NativeSubmittedLease {
    pub native: ComposerLeaseId,
    pub range: Range<usize>,
}

/// Content-opaque provenance carried with one composer submission until app-server acceptance.
///
/// The submitted text is retained only in memory so later correction locators can be computed
/// against the exact accepted user message. There is no `Debug`, so that text is never formatted;
/// [`Self::description`] tells the rest.
pub struct NativeComposerSubmission {
    pub submission_id: Uuid,
    pub thread_id: String,
    pub submitted_text: String,
    pub leases: Vec<NativeSubmittedLease>,
    pub direct_lease_id: Option<Uuid>,
}

/// An owned range as plain values.
pub struct LeaseView {
    pub native: ComposerLeaseId,
    pub start: int,
    pub end: int,
}

impl View for NativeSubmittedLease {
    type V = LeaseView;

    open spec fn view(&self) -> LeaseView {
        LeaseView { native: self.native, start: self.range.start as int, end: self.range.end as int }
    }
}

impl View for SubmittedComposerLease {
    type V = LeaseView;

    open spec fn view(&self) -> LeaseView {
        LeaseView { native: self.id, start: self.range.start as int, end: self.range.end as int }
    }
}

/// Owned ranges as plain values.
pub open spec fn lease_views(leases: Seq<NativeSubmittedLease>) -> Seq<LeaseView> {
    leases.map_values(|lease: NativeSubmittedLease| lease@)
}

/// A submission as plain values.
pub struct SubmissionView {
    pub submission_id: Uuid,
    pub thread_id: Seq<char>,
    pub submitted_text: Seq<char>,
    pub leases: Seq<LeaseView>,
    pub direct_lease_id: Option<Uuid>,
}

impl SubmissionView {
    /// Every owned range names text of the message.
    pub open spec fn well_formed(self) -> bool {
        forall|k: int|
            0 <= k < self.leases.len() ==> text_at(
                self.submitted_text,
                (#[trigger] self.leases[k]).start,
                self.leases[k].end,
            ) is Some
    }
}

impl View for NativeComposerSubmission {
    type V = SubmissionView;

    open spec fn view(&self) -> SubmissionView {
        SubmissionView {
            submission_id: self.submission_id,
            thread_id: self.thread_id@,
            submitted_text: self.submitted_text@,
            leases: lease_views(self.leases@),
            direct_lease_id: self.direct_lease_id,
        }
    }
}

/// Those of `leases` that name text of `text`, in order.
pub open spec fn leases_in(text: Seq<char>, leases: Seq<SubmittedComposerLease>) -> Seq<LeaseView>
    decreases leases.len(),
{
    if leases.len() == 0 {
        Seq::empty()
    } else {
        let earlier = leases_in(text, leases.drop_last());
        let lease = leases.last()@;
        if text_at(text, lease.start, lease.end) is Some {
            earlier.push(lease)
        } else {
            earlier
        }
    }
}

/// The client identity of the message that `submission_id` names.
pub open spec fn client_message_id(submission_id: Uuid) -> Seq<char> {
    "koenig-composer-"@ + hyphenated_text(submission_id)
}

/// The client identity of the message that `submission_id` names.
pub fn client_message_id_of(submission_id: Uuid) -> (id: String)
    ensures
        id@ == client_message_id(submission_id),
{
    String::from_str("koenig-composer-").concat(hyphenated(submission_id).as_str())
}

/// The key under which a submission's receipt stands in the application context.
pub open spec fn receipt_key(submission_id: Uuid) -> Seq<char> {
    "koenig_transcription_receipt_"@ + simple_text(submission_id)
}

/// The receipt of a submission.
pub open spec fn receipt_value(submission_id: Uuid) -> Seq<char> {
    "Koenig submission receipt "@ + client_message_id(submission_id)
        + ". The immediately following user message contains the Koenig-owned transcription associated with this receipt. A later Application-context correction naming this receipt mechanically amends only the explicitly identified owned range in that message."@
}

/// What the `Debug` form of a text is.
pub uninterp spec fn debug_text(text: Seq<char>) -> Seq<char>;

/// The `Debug` of `str`: the text between quotation marks, with those characters escaped that
/// would not be readable. Which these are is not claimed, only that the form depends on the text
/// alone.
#[verifier::external_body]
fn debug_form(text: &str) -> (form: String)
    ensures
        form@ == debug_text(text@),
{
    format!("{:?}", text)
}

/// What is told of a submission for diagnosis: nothing of its text but the length.
pub open spec fn description_text(
    submission_id: Uuid,
    thread_id: Seq<char>,
    submitted_text_bytes: nat,
    lease_count: nat,
    direct: bool,
) -> Seq<char> {
    "NativeComposerSubmission { submission_id: "@ + hyphenated_text(submission_id)
        + ", thread_id: "@ + debug_text(thread_id) + ", submitted_text_bytes: "@ + decimal_text(
        submitted_text_bytes,
    ) + ", lease_count: "@ + decimal_text(lease_count) + ", direct: "@ + (if direct {
        "true"@
    } else {
        "false"@
    }) + " }"@
}

/// Copies owned ranges.
pub fn copy_leases(leases: &Vec<NativeSubmittedLease>) -> (copy: Vec<NativeSubmittedLease>)
    ensures
        copy@ == leases@,
{
    let mut copy: Vec<NativeSubmittedLease> = Vec::new();
    let mut i: usize = 0;
    while i < leases.len()
        invariant
            i <= leases@.len(),
            copy@ == leases@.take(i as int),
        decreases leases@.len() - i,
    {
        copy.push(
            NativeSubmittedLease {
                native: leases[i].native,
                range: leases[i].range.start..leases[i].range.end,
            },
        );
        assert(copy@ =~= leases@.take(i as int + 1));
        i += 1;
    }
    assert(copy@ =~= leases@);
    copy
}

impl NativeComposerSubmission {
    /// The submission of `submitted_text` with those leases that name text of it; none where no
    /// lease does.
    pub fn new(
        thread_id: String,
        submitted_text: &str,
        leases: Vec<SubmittedComposerLease>,
    ) -> (submission: Option<Self>)
        ensures
            match submission {
                None => leases_in(submitted_text@, leases@).len() == 0,
                Some(made) => {
                    &&& leases_in(submitted_text@, leases@).len() > 0
                    &&& is_version_4(made.submission_id)
                    &&& made@.well_formed()
                    &&& made@ == (SubmissionView {
                        submission_id: made.submission_id,
                        thread_id: thread_id@,
                        submitted_text: submitted_text@,
                        leases: leases_in(submitted_text@, leases@),
                        direct_lease_id: None,
                    })
                },
            },
    {
        let mut owned: Vec<NativeSubmittedLease> = Vec::new();
        let mut i: usize = 0;
        assert(leases@.take(0) =~= Seq::<SubmittedComposerLease>::empty());
        while i < leases.len()
            invariant
                i <= leases@.len(),
                lease_views(owned@) =~= leases_in(submitted_text@, leases@.take(i as int)),
                forall|k: int|
                    0 <= k < owned@.len() ==> text_at(
                        submitted_text@,
                        (#[trigger] lease_views(owned@)[k]).start,
                        lease_views(owned@)[k].end,
                    ) is Some,
            decreases leases@.len() - i,
        {
            let lease: &SubmittedComposerLease = &leases[i];
            assert(leases@.take(i as int + 1).drop_last() =~= leases@.take(i as int));
            if slice(submitted_text, lease.range.start, lease.range.end).is_some() {
                let ghost before = owned@;
                owned.push(
                    NativeSubmittedLease {
                        native: lease.id,
                        range: lease.range.start..lease.range.end,
                    },
                );
                assert(lease_views(owned@) =~= lease_views(before).push(lease@));
            }
            i += 1;
        }
        assert(leases@.take(leases@.len() as int) =~= leases@);
        assert(lease_views(owned@).len() == owned@.len());
        if owned.len() == 0 {
            return None;
        }
        Some(
            NativeComposerSubmission {
                submission_id: random_uuid(),
                thread_id,
                submitted_text: String::from_str(submitted_text),
                leases: owned,
                direct_lease_id: None,
            },
        )
    }

    /// A composer-free submission under reservation `lease_id`.
    pub fn new_direct(
        submission_id: Uuid,
        lease_id: Uuid,
        thread_id: String,
        submitted_text: &str,
    ) -> (submission: Self)
        ensures
            submission.thread_id == thread_id,
            submission@.well_formed(),
            submission@ == (SubmissionView {
                submission_id,
                thread_id: thread_id@,
                submitted_text: submitted_text@,
                leases: Seq::empty(),
                direct_lease_id: Some(lease_id),
            }),
    {
        let submission = NativeComposerSubmission {
            submission_id,
            thread_id,
            submitted_text: String::from_str(submitted_text),
            leases: Vec::new(),
            direct_lease_id: Some(lease_id),
        };
        assert(lease_views(submission.leases@) =~= Seq::<LeaseView>::empty());
        submission
    }

    /// The identity under which the message is sent.
    pub fn client_user_message_id(&self) -> (id: String)
        ensures
            id@ == client_message_id(self.submission_id),
    {
        client_message_id_of(self.submission_id)
    }

    /// The receipt that announces the message, and the key under which it stands.
    pub fn receipt_context(&self) -> (entry: (String, String))
        ensures
            entry.0@ == receipt_key(self.submission_id),
            entry.1@ == receipt_value(self.submission_id),
    {
        let receipt: String = self.client_user_message_id();
        let key: String = String::from_str("koenig_transcription_receipt_").concat(
            simple(self.submission_id).as_str(),
        );
        let value: String = String::from_str("Koenig submission receipt ").concat(
            receipt.as_str(),
        ).concat(
            ". The immediately following user message contains the Koenig-owned transcription associated with this receipt. A later Application-context correction naming this receipt mechanically amends only the explicitly identified owned range in that message.",
        );
        (key, value)
    }

    pub fn thread_id(&self) -> (thread_id: &str)
        ensures
            thread_id@ == self.thread_id@,
    {
        self.thread_id.as_str()
    }

    pub fn submission_id(&self) -> (id: Uuid)
        ensures
            id == self.submission_id,
    {
        self.submission_id
    }

    pub fn submitted_text(&self) -> (text: &str)
        ensures
            text@ == self.submitted_text@,
    {
        self.submitted_text.as_str()
    }

    /// `true` exactly for a composer-free submission.
    pub fn is_direct(&self) -> (direct: bool)
        ensures
            direct == self.direct_lease_id is Some,
    {
        self.direct_lease_id.is_some()
    }

    /// The identity, the thread, the size and the kind of the submission, without its text.
    pub fn description(&self) -> (text: String)
        ensures
            text@ == description_text(
                self.submission_id,
                self.thread_id@,
                utf8(self.submitted_text@).len(),
                self.leases@.len(),
                self.direct_lease_id is Some,
            ),
    {
        let mut text: String = String::from_str("NativeComposerSubmission { submission_id: ");
        text.append(hyphenated(self.submission_id).as_str());
        text.append(", thread_id: ");
        text.append(debug_form(self.thread_id.as_str()).as_str());
        text.append(", submitted_text_bytes: ");
        text.append(decimal(byte_len(self.submitted_text.as_str()) as u64).as_str());
        text.append(", lease_count: ");
        text.append(decimal(self.leases.len() as u64).as_str());
        text.append(", direct: ");
        text.append(
            if self.is_direct() {
                "true"
            } else {
                "false"
            },
        );
        text.append(" }");
        text
    }

    /// A copy with the same text and ranges.
    pub fn copied(&self) -> (copy: Self)
        ensures
            copy.submission_id == self.submission_id,
            copy.thread_id == self.thread_id,
            copy.submitted_text == self.submitted_text,
            copy.leases@ == self.leases@,
            copy.direct_lease_id == self.direct_lease_id,
            copy@ == self@,
    {
        NativeComposerSubmission {
            submission_id: self.submission_id,
            thread_id: self.thread_id.clone(),
            submitted_text: self.submitted_text.clone(),
            leases: copy_leases(&self.leases),
            direct_lease_id: self.direct_lease_id,
        }
    }
}

} // verus!
