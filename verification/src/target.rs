//! The composer as the control plane sees it.
use crate::submission::ComposerLeaseId;
use crate::wire::ErrorCode;
use vstd::prelude::*;
use vstd::string::*;

verus! {

/// `crossterm::event::KeyEvent`, carried through to the composer and never looked into here.
#[verifier::external_type_specification]
#[verifier::external_body]
pub struct ExKeyEvent(crossterm::event::KeyEvent);

/// A terminal event.
pub enum TuiEvent {
    Key(crossterm::event::KeyEvent),
    Paste(String),
    Draw,
}

/// The event is terminal input.
pub open spec fn is_input(event: TuiEvent) -> bool {
    event is Key || event is Paste
}

/// Why the composer refused to touch owned text.
#[derive(Clone, Copy, Debug, PartialEq, Eq, Structural)]
pub enum ComposerLeaseError {
    EmptyText,
    LeaseUnavailable,
    ExpectedTextMismatch,
    CursorConflicts,
}

/// How a refusal of the composer is reported.
pub open spec fn lease_error_code(error: ComposerLeaseError) -> ErrorCode {
    match error {
        ComposerLeaseError::EmptyText => ErrorCode::InvalidText,
        ComposerLeaseError::LeaseUnavailable => ErrorCode::LeaseUnavailable,
        ComposerLeaseError::ExpectedTextMismatch => ErrorCode::ExpectedMismatch,
        ComposerLeaseError::CursorConflicts => ErrorCode::CursorConflict,
    }
}

/// Reports a refusal of the composer.
pub fn map_lease_error(error: ComposerLeaseError) -> (code: ErrorCode)
    ensures
        code == lease_error_code(error),
{
    match error {
        ComposerLeaseError::EmptyText => ErrorCode::InvalidText,
        ComposerLeaseError::LeaseUnavailable => ErrorCode::LeaseUnavailable,
        ComposerLeaseError::ExpectedTextMismatch => ErrorCode::ExpectedMismatch,
        ComposerLeaseError::CursorConflicts => ErrorCode::CursorConflict,
    }
}

/// Snapshot of the active native composer. It has no `Debug`, because it carries the draft.
pub struct ComposerSnapshot {
    pub thread_id: String,
    pub text: String,
    pub cursor: usize,
}

/// A snapshot as plain values.
pub struct SnapshotView {
    pub thread_id: Seq<char>,
    pub text: Seq<char>,
    pub cursor: usize,
}

impl View for ComposerSnapshot {
    type V = SnapshotView;

    open spec fn view(&self) -> SnapshotView {
        SnapshotView { thread_id: self.thread_id@, text: self.text@, cursor: self.cursor }
    }
}

impl ComposerSnapshot {
    pub fn new(thread_id: String, text: String, cursor: usize) -> (snapshot: Self)
        ensures
            snapshot == (ComposerSnapshot { thread_id, text, cursor }),
    {
        ComposerSnapshot { thread_id, text, cursor }
    }
}

/// A snapshot that may be missing, as plain values.
pub open spec fn snapshot_view(snapshot: Option<ComposerSnapshot>) -> Option<SnapshotView> {
    match snapshot {
        Some(taken) => Some(taken@),
        None => None,
    }
}

/// A text that may be missing, as plain values.
pub open spec fn text_view(text: Option<String>) -> Option<Seq<char>> {
    match text {
        Some(present) => Some(present@),
        None => None,
    }
}

/// The composer that a control plane drives.
///
/// The specification functions name what a composer shows and what may become of it. They say
/// nothing of when it accepts, refuses or is available.
pub trait ComposerControlTarget: Sized {
    /// The thread that is shown.
    closed spec fn shown_thread(&self) -> Option<Seq<char>> {
        arbitrary()
    }

    /// The draft that can be taken, where the composer is available.
    closed spec fn shown_draft(&self) -> Option<SnapshotView> {
        arbitrary()
    }

    /// Whether the composer still owns `expected` under `lease`.
    closed spec fn owns(&self, lease: ComposerLeaseId, expected: Seq<char>) -> Result<
        (),
        ComposerLeaseError,
    > {
        arbitrary()
    }

    /// Inserting `text` may turn the composer into `after` and be answered so.
    closed spec fn may_insert(
        self,
        text: Seq<char>,
        after: Self,
        answer: Result<ComposerLeaseId, ComposerLeaseError>,
    ) -> bool {
        arbitrary()
    }

    /// Letting `lease` go may turn the composer into `after` and be answered so.
    closed spec fn may_keep(
        self,
        lease: ComposerLeaseId,
        after: Self,
        answer: Result<(), ComposerLeaseError>,
    ) -> bool {
        arbitrary()
    }

    /// Replacing owned text may turn the composer into `after` and be answered so.
    closed spec fn may_replace(
        self,
        lease: ComposerLeaseId,
        expected: Seq<char>,
        replacement: Seq<char>,
        after: Self,
        answer: Result<(), ComposerLeaseError>,
    ) -> bool {
        arbitrary()
    }

    /// Whether a composer-free send can be reserved.
    closed spec fn direct_send_open(&self) -> bool {
        arbitrary()
    }

    /// Whether a plain draft can be captured for a send.
    closed spec fn plain_draft_send_open(&self) -> bool {
        arbitrary()
    }

    /// Whether `event` would submit the draft.
    closed spec fn submits(&self, event: TuiEvent) -> bool {
        arbitrary()
    }

    fn thread_id(&self) -> (thread_id: Option<String>)
        ensures
            text_view(thread_id) == self.shown_thread(),
    ;

    fn snapshot(&self) -> (snapshot: Option<ComposerSnapshot>)
        ensures
            snapshot_view(snapshot) == self.shown_draft(),
    ;

    fn insert_owned_text(&mut self, text: &str) -> (lease: Result<
        ComposerLeaseId,
        ComposerLeaseError,
    >)
        ensures
            old(self).may_insert(text@, *final(self), lease),
    ;

    fn verify_owned_text(&self, lease: ComposerLeaseId, expected: &str) -> (verified: Result<
        (),
        ComposerLeaseError,
    >)
        ensures
            verified == self.owns(lease, expected@),
    ;

    fn keep_owned_text(&mut self, lease: ComposerLeaseId) -> (kept: Result<(), ComposerLeaseError>)
        ensures
            old(self).may_keep(lease, *final(self), kept),
    ;

    fn replace_owned_text(
        &mut self,
        lease: ComposerLeaseId,
        expected: &str,
        replacement: &str,
    ) -> (replaced: Result<(), ComposerLeaseError>)
        ensures
            old(self).may_replace(
                lease,
                expected@,
                replacement@,
                *final(self),
                replaced,
            ),
    ;

    fn direct_send_acquisition_available(&self) -> (available: bool)
        ensures
            available == self.direct_send_open(),
    ;

    fn plain_draft_send_acquisition_available(&self) -> (available: bool)
        ensures
            available == self.plain_draft_send_open(),
    ;

    fn is_submission_event(&self, event: &TuiEvent) -> (submits: bool)
        ensures
            submits == self.submits(*event),
    ;
}

/// Letting `lease` go may turn `target` into `after`, whatever is answered.
pub open spec fn let_go_into<T: ComposerControlTarget>(
    target: T,
    lease: ComposerLeaseId,
    after: T,
) -> bool {
    exists|answer: Result<(), ComposerLeaseError>| #[trigger] target.may_keep(lease, after, answer)
}

/// The draft that can be taken while no overlay covers the composer.
pub open spec fn available_draft<T: ComposerControlTarget>(target: &T, overlay: bool) -> Option<
    SnapshotView,
> {
    if overlay {
        None
    } else {
        target.shown_draft()
    }
}

/// The snapshot that can be taken while no overlay covers the composer.
pub fn available_snapshot<T: ComposerControlTarget>(
    target: &T,
    app_overlay_active: bool,
) -> (snapshot: Option<ComposerSnapshot>)
    ensures
        snapshot_view(snapshot) == available_draft(target, app_overlay_active),
{
    if app_overlay_active {
        None
    } else {
        target.snapshot()
    }
}

} // verus!
