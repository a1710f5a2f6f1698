//! The control plane's state, and how sends are acquired.
use crate::digest::{text_digest, text_hash};
use crate::direct_send::{DirectSendReservation, DirectSendReservations};
use crate::fence::{FenceTable, SubmitFence};
use crate::ids::{is_version_4, unused_id, Uuid};
use crate::lease::{Capture, ExternalLease};
use crate::ledger::{distinct, holds, keys_are_held, Ledger};
use crate::target::{
    available_draft, available_snapshot, is_input, snapshot_view, ComposerControlTarget,
    ComposerSnapshot, SnapshotView, TuiEvent,
};
use crate::wire::{refused, ComposerCommand, ErrorCode, WireResult};
use vstd::prelude::*;
use vstd::string::*;

verus! {

pub const MAX_CAPTURE_COUNT: usize = 64;

pub const MAX_LEASE_COUNT: usize = 256;

/// Everything that the control plane knows of the composer.
pub struct ComposerControlState {
    pub input_epoch: u64,
    pub user_chronology_epoch: u64,
    pub captures: Ledger<Capture>,
    pub leases: Ledger<ExternalLease>,
    pub kept_leases: Vec<Uuid>,
    pub unknown_acknowledged_leases: Vec<Uuid>,
    pub direct_sends: DirectSendReservations,
    pub fences: FenceTable,
}

pub type NativeComposerControlState = ComposerControlState;

/// The composer-free sends as plain values.
pub struct DirectView {
    pub reservations: Seq<(Uuid, DirectSendReservation)>,
    pub kept: Seq<Uuid>,
    pub unknown_acknowledged: Seq<Uuid>,
}

impl View for DirectSendReservations {
    type V = DirectView;

    open spec fn view(&self) -> DirectView {
        DirectView {
            reservations: self.reservations.entries@,
            kept: self.kept@,
            unknown_acknowledged: self.unknown_acknowledged@,
        }
    }
}

/// The state as plain values.
pub struct ControlView {
    pub input_epoch: u64,
    pub user_chronology_epoch: u64,
    pub captures: Seq<(Uuid, Capture)>,
    pub leases: Seq<(Uuid, ExternalLease)>,
    pub kept_leases: Seq<Uuid>,
    pub unknown_acknowledged_leases: Seq<Uuid>,
    pub direct_sends: DirectView,
    pub fences: Seq<SubmitFence>,
}

impl View for ComposerControlState {
    type V = ControlView;

    open spec fn view(&self) -> ControlView {
        ControlView {
            input_epoch: self.input_epoch,
            user_chronology_epoch: self.user_chronology_epoch,
            captures: self.captures.entries@,
            leases: self.leases.entries@,
            kept_leases: self.kept_leases@,
            unknown_acknowledged_leases: self.unknown_acknowledged_leases@,
            direct_sends: self.direct_sends@,
            fences: self.fences.fences@,
        }
    }
}

/// Composer state frozen before a bounded semantic submit begins.
///
/// Terminal events are deferred while the submit is in flight. Requests to acquire or capture
/// that arrive first can therefore be answered against this exact snapshot.
pub struct FrozenComposerAcquisition {
    pub snapshot: Option<ComposerSnapshot>,
    pub direct_send_available: bool,
    pub plain_draft_send_available: bool,
    pub input_epoch: u64,
    pub nonempty_capture_allowed: bool,
}

/// A request from the listener. It carries text, so it has no `Debug`.
pub struct ComposerControlRequest {
    pub command: ComposerCommand,
    /// The request has waited for the UI longer than it may.
    pub expired: bool,
}

/// The oldest captures beyond the limit are dropped.
pub open spec fn evicted<V>(entries: Seq<(Uuid, V)>, limit: int) -> Seq<(Uuid, V)> {
    if entries.len() > limit {
        entries.subrange(entries.len() - limit, entries.len() as int)
    } else {
        entries
    }
}

/// Drops the oldest entries beyond `limit`.
pub fn evict_oldest<V>(values: &mut Ledger<V>, limit: usize)
    requires
        distinct(old(values).entries@),
    ensures
        final(values).entries@ == evicted(old(values).entries@, limit as int),
        distinct(final(values).entries@),
{
    let ghost before = values.entries@;
    while values.entries.len() > limit
        invariant
            distinct(before),
            values.entries@.len() <= before.len(),
            values.entries@ == before.subrange(
                before.len() - values.entries@.len(),
                before.len() as int,
            ),
            values.entries@.len() >= limit || values.entries@ == before,
        decreases values.entries@.len(),
    {
        let _oldest = values.entries.remove(0);
        assert(values.entries@ =~= before.subrange(
            before.len() - values.entries@.len(),
            before.len() as int,
        ));
    }
    assert(values.entries@ =~= evicted(before, limit as int));
}

/// An identifier that is not filed.
pub fn fresh_id<V>(values: &Ledger<V>) -> (id: Uuid)
    ensures
        !holds(values.entries@, id),
        is_version_4(id),
{
    let taken: Vec<Uuid> = values.ids();
    let id: Uuid = unused_id(&taken);
    proof {
        keys_are_held(values.entries@, id);
    }
    id
}

impl ComposerControlState {
    /// No identifier is in use twice, a lease that was let go is gone, and nothing outgrows its
    /// limit.
    pub open spec fn well_formed(self) -> bool {
        &&& distinct(self.captures.entries@)
        &&& self.captures.entries@.len() <= MAX_CAPTURE_COUNT
        &&& distinct(self.leases.entries@)
        &&& self.leases.entries@.len() <= MAX_LEASE_COUNT
        &&& self.kept_leases@.no_duplicates()
        &&& self.kept_leases@.len() <= MAX_LEASE_COUNT
        &&& self.unknown_acknowledged_leases@.no_duplicates()
        &&& self.unknown_acknowledged_leases@.len() <= MAX_LEASE_COUNT
        &&& forall|id: Uuid| #[trigger]
            holds(self.leases.entries@, id) ==> !self.kept_leases@.contains(id)
                && !self.unknown_acknowledged_leases@.contains(id)
        &&& self.direct_sends.well_formed()
    }

    pub fn new() -> (state: Self)
        ensures
            state.well_formed(),
            state.input_epoch == 0,
            state.user_chronology_epoch == 0,
            state.captures.entries@.len() == 0,
            state.leases.entries@.len() == 0,
            state.kept_leases@.len() == 0,
            state.unknown_acknowledged_leases@.len() == 0,
            state.direct_sends.reservations.entries@.len() == 0,
            state.direct_sends.kept@.len() == 0,
            state.direct_sends.unknown_acknowledged@.len() == 0,
            state.fences.fences@.len() == 0,
    {
        Self::with_user_chronology_epoch(0)
    }

    pub fn with_user_chronology_epoch(user_chronology_epoch: u64) -> (state: Self)
        ensures
            state.well_formed(),
            state.input_epoch == 0,
            state.user_chronology_epoch == user_chronology_epoch,
            state.captures.entries@.len() == 0,
            state.leases.entries@.len() == 0,
            state.kept_leases@.len() == 0,
            state.unknown_acknowledged_leases@.len() == 0,
            state.direct_sends.reservations.entries@.len() == 0,
            state.direct_sends.kept@.len() == 0,
            state.direct_sends.unknown_acknowledged@.len() == 0,
            state.fences.fences@.len() == 0,
    {
        ComposerControlState {
            input_epoch: 0,
            user_chronology_epoch,
            captures: Ledger::new(),
            leases: Ledger::new(),
            kept_leases: Vec::new(),
            unknown_acknowledged_leases: Vec::new(),
            direct_sends: DirectSendReservations::new(),
            fences: FenceTable::new(),
        }
    }

    /// Notes that the user changed the order of messages.
    pub fn note_user_chronology_change(&mut self)
        requires
            old(self).well_formed(),
        ensures
            final(self).well_formed(),
            final(self)@ == (ControlView {
                user_chronology_epoch: old(self).user_chronology_epoch.wrapping_add(1),
                ..old(self)@
            }),
    {
        self.user_chronology_epoch = self.user_chronology_epoch.wrapping_add(1);
    }

    /// Follows the chronology that the rest of the application counts.
    pub fn set_user_chronology_epoch(&mut self, epoch: u64)
        requires
            old(self).well_formed(),
        ensures
            final(self).well_formed(),
            final(self)@ == (ControlView { user_chronology_epoch: epoch, ..old(self)@ }),
    {
        self.user_chronology_epoch = epoch;
    }

    pub fn current_user_chronology_epoch(&self) -> (epoch: u64)
        ensures
            epoch == self.user_chronology_epoch,
    {
        self.user_chronology_epoch
    }

    /// Conservatively invalidates captures before any terminal input is routed. Even a key that
    /// another surface handles advances the epoch; false rejection is safer than inserting
    /// against an input order that the producer did not capture.
    pub fn note_tui_event(&mut self, event: &TuiEvent)
        requires
            old(self).well_formed(),
        ensures
            final(self).well_formed(),
            final(self)@ == (ControlView {
                input_epoch: if is_input(*event) {
                    old(self).input_epoch.wrapping_add(1)
                } else {
                    old(self).input_epoch
                },
                ..old(self)@
            }),
    {
        if matches!(event, TuiEvent::Key(_) | TuiEvent::Paste(_)) {
            self.input_epoch = self.input_epoch.wrapping_add(1);
        }
    }

    /// Takes what acquire requests are answered from while the live widget is busy.
    pub fn freeze_acquisition<T: ComposerControlTarget>(
        &self,
        target: &T,
        app_overlay_active: bool,
        nonempty_capture_allowed: bool,
    ) -> (frozen: FrozenComposerAcquisition)
        ensures
            snapshot_view(frozen.snapshot) == available_draft(target, app_overlay_active),
            frozen.direct_send_available == target.direct_send_open(),
            frozen.plain_draft_send_available == target.plain_draft_send_open(),
            frozen.input_epoch == self.input_epoch,
            frozen.nonempty_capture_allowed == nonempty_capture_allowed,
    {
        FrozenComposerAcquisition {
            snapshot: available_snapshot(target, app_overlay_active),
            direct_send_available: target.direct_send_acquisition_available(),
            plain_draft_send_available: target.plain_draft_send_acquisition_available(),
            input_epoch: self.input_epoch,
            nonempty_capture_allowed,
        }
    }

    /// What capturing `draft` answers and changes: a new capture under a new identifier, and the
    /// oldest capture gone where there are too many.
    pub open spec fn capture_step(
        self,
        after: Self,
        draft: SnapshotView,
        input_epoch: u64,
        result: WireResult,
    ) -> bool {
        &&& result matches WireResult::Captured { capture_id }
        &&& !holds(self.captures.entries@, capture_id)
        &&& is_version_4(capture_id)
        &&& after.captures.entries@.len() > 0
        &&& after.captures.entries@.last().0 == capture_id
        &&& captures_draft(after.captures.entries@.last().1, draft, input_epoch)
        &&& after@ == (ControlView {
            captures: evicted(
                self.captures.entries@.push(after.captures.entries@.last()),
                MAX_CAPTURE_COUNT as int,
            ),
            ..self@
        })
    }

    fn capture_snapshot(&mut self, snapshot: &ComposerSnapshot, input_epoch: u64) -> (result:
        WireResult)
        requires
            old(self).well_formed(),
        ensures
            final(self).well_formed(),
            old(self).capture_step(*final(self), snapshot@, input_epoch, result),
    {
        let capture_id: Uuid = fresh_id(&self.captures);
        self.captures.push(
            capture_id,
            Capture {
                thread_id: snapshot.thread_id.clone(),
                text_hash: text_hash(snapshot.text.as_str()),
                cursor: snapshot.cursor,
                input_epoch,
            },
        );
        evict_oldest(&mut self.captures, MAX_CAPTURE_COUNT);
        WireResult::Captured { capture_id }
    }

    /// Captures the draft.
    pub fn capture<T: ComposerControlTarget>(
        &mut self,
        target: &T,
        app_overlay_active: bool,
    ) -> (result: WireResult)
        requires
            old(self).well_formed(),
        ensures
            final(self).well_formed(),
            match available_draft(target, app_overlay_active) {
                None => result == refused(ErrorCode::ComposerUnavailable) && final(self)@
                    == old(self)@,
                Some(draft) => old(self).capture_step(
                    *final(self),
                    draft,
                    old(self).input_epoch,
                    result,
                ),
            },
    {
        match available_snapshot(target, app_overlay_active) {
            None => WireResult::not_applied(ErrorCode::ComposerUnavailable),
            Some(snapshot) => {
                let input_epoch: u64 = self.input_epoch;
                self.capture_snapshot(&snapshot, input_epoch)
            },
        }
    }

    /// What acquiring a send from `draft` answers and changes: an empty draft is reserved for a
    /// composer-free send, another one is captured, where the composer allows it.
    pub open spec fn acquire_step(
        self,
        after: Self,
        draft: Option<SnapshotView>,
        direct_open: bool,
        plain_open: bool,
        input_epoch: u64,
        result: WireResult,
    ) -> bool {
        match draft {
            None => result == refused(ErrorCode::ComposerUnavailable) && after@ == self@,
            Some(draft) => if draft.text.len() == 0 {
                if !direct_open {
                    result == refused(ErrorCode::SubmissionUnavailable) && after@ == self@
                } else {
                    &&& self.direct_sends.acquire_step(
                        after.direct_sends,
                        draft.thread_id,
                        self.user_chronology_epoch,
                        result,
                    )
                    &&& after@ == (ControlView { direct_sends: after.direct_sends@, ..self@ })
                }
            } else if !plain_open {
                result == refused(ErrorCode::SubmissionUnavailable) && after@ == self@
            } else {
                self.capture_step(after, draft, input_epoch, result)
            },
        }
    }

    /// Acquires a send: a reservation where the composer is empty, else a capture.
    pub fn acquire_send<T: ComposerControlTarget>(
        &mut self,
        target: &T,
        app_overlay_active: bool,
    ) -> (result: WireResult)
        requires
            old(self).well_formed(),
        ensures
            final(self).well_formed(),
            old(self).acquire_step(
                *final(self),
                available_draft(target, app_overlay_active),
                target.direct_send_open(),
                target.plain_draft_send_open(),
                old(self).input_epoch,
                result,
            ),
    {
        let snapshot: ComposerSnapshot = match available_snapshot(target, app_overlay_active) {
            None => return WireResult::not_applied(ErrorCode::ComposerUnavailable),
            Some(snapshot) => snapshot,
        };
        if snapshot.text.as_str().is_empty() {
            if !target.direct_send_acquisition_available() {
                return WireResult::not_applied(ErrorCode::SubmissionUnavailable);
            }
            let user_chronology_epoch: u64 = self.current_user_chronology_epoch();
            return self.direct_sends.acquire(snapshot.thread_id, user_chronology_epoch);
        }
        if !target.plain_draft_send_acquisition_available() {
            return WireResult::not_applied(ErrorCode::SubmissionUnavailable);
        }
        self.capture(target, app_overlay_active)
    }

    /// Acquires a send from a frozen composer.
    pub fn acquire_send_frozen(&mut self, frozen: &FrozenComposerAcquisition) -> (result:
        WireResult)
        requires
            old(self).well_formed(),
        ensures
            final(self).well_formed(),
            old(self).acquire_step(
                *final(self),
                snapshot_view(frozen.snapshot),
                frozen.direct_send_available,
                frozen.nonempty_capture_allowed && frozen.plain_draft_send_available,
                frozen.input_epoch,
                result,
            ),
    {
        let snapshot: &ComposerSnapshot = match &frozen.snapshot {
            None => return WireResult::not_applied(ErrorCode::ComposerUnavailable),
            Some(snapshot) => snapshot,
        };
        if snapshot.text.as_str().is_empty() {
            if !frozen.direct_send_available {
                return WireResult::not_applied(ErrorCode::SubmissionUnavailable);
            }
            let user_chronology_epoch: u64 = self.current_user_chronology_epoch();
            return self.direct_sends.acquire(snapshot.thread_id.clone(), user_chronology_epoch);
        }
        if !frozen.nonempty_capture_allowed || !frozen.plain_draft_send_available {
            return WireResult::not_applied(ErrorCode::SubmissionUnavailable);
        }
        self.capture_snapshot(snapshot, frozen.input_epoch)
    }

    /// Captures a frozen draft.
    pub fn capture_frozen(&mut self, frozen: &FrozenComposerAcquisition) -> (result: WireResult)
        requires
            old(self).well_formed(),
        ensures
            final(self).well_formed(),
            match snapshot_view(frozen.snapshot) {
                None => result == refused(ErrorCode::ComposerUnavailable) && final(self)@
                    == old(self)@,
                Some(draft) => if draft.text.len() > 0 && !frozen.nonempty_capture_allowed {
                    result == refused(ErrorCode::SubmissionUnavailable) && final(self)@
                        == old(self)@
                } else {
                    old(self).capture_step(*final(self), draft, frozen.input_epoch, result)
                },
            },
    {
        let snapshot: &ComposerSnapshot = match &frozen.snapshot {
            None => return WireResult::not_applied(ErrorCode::ComposerUnavailable),
            Some(snapshot) => snapshot,
        };
        if !snapshot.text.as_str().is_empty() && !frozen.nonempty_capture_allowed {
            return WireResult::not_applied(ErrorCode::SubmissionUnavailable);
        }
        self.capture_snapshot(snapshot, frozen.input_epoch)
    }

    /// Serves only Stop-time acquisition while another semantic submit owns the live widget.
    /// Other requests are handed back unchanged for normal serialized processing.
    pub fn handle_frozen_acquisition_request(
        &mut self,
        request: ComposerControlRequest,
        frozen: &FrozenComposerAcquisition,
        tainted_by_prior_terminal_input: bool,
    ) -> (served: Result<WireResult, ComposerControlRequest>)
        requires
            old(self).well_formed(),
        ensures
            final(self).well_formed(),
            if !(request.command is AcquireSend || request.command is Capture) {
                served == Err::<WireResult, _>(request) && final(self)@ == old(self)@
            } else if request.expired {
                served == Ok::<_, ComposerControlRequest>(refused(ErrorCode::UiTimeout))
                    && final(self)@ == old(self)@
            } else if tainted_by_prior_terminal_input {
                served == Ok::<_, ComposerControlRequest>(refused(ErrorCode::SubmissionUnavailable))
                    && final(self)@ == old(self)@
            } else if request.command is AcquireSend {
                &&& served matches Ok(result)
                &&& old(self).acquire_step(
                    *final(self),
                    snapshot_view(frozen.snapshot),
                    frozen.direct_send_available,
                    frozen.nonempty_capture_allowed && frozen.plain_draft_send_available,
                    frozen.input_epoch,
                    result,
                )
            } else {
                &&& served matches Ok(result)
                &&& match snapshot_view(frozen.snapshot) {
                    None => result == refused(ErrorCode::ComposerUnavailable) && final(self)@
                        == old(self)@,
                    Some(draft) => if draft.text.len() > 0 && !frozen.nonempty_capture_allowed {
                        result == refused(ErrorCode::SubmissionUnavailable) && final(self)@
                            == old(self)@
                    } else {
                        old(self).capture_step(*final(self), draft, frozen.input_epoch, result)
                    },
                }
            },
    {
        let acquires: bool = matches!(request.command, ComposerCommand::AcquireSend);
        if !acquires && !matches!(request.command, ComposerCommand::Capture) {
            return Err(request);
        }
        let result: WireResult = if request.expired {
            WireResult::not_applied(ErrorCode::UiTimeout)
        } else if tainted_by_prior_terminal_input {
            WireResult::not_applied(ErrorCode::SubmissionUnavailable)
        } else if acquires {
            self.acquire_send_frozen(frozen)
        } else {
            self.capture_frozen(frozen)
        };
        Ok(result)
    }
}

/// The capture holds `draft` as it was in `input_epoch`.
pub open spec fn captures_draft(capture: Capture, draft: SnapshotView, input_epoch: u64) -> bool {
    &&& capture.thread_id@ == draft.thread_id
    &&& capture.text_hash == text_digest(draft.text)
    &&& capture.cursor == draft.cursor
    &&& capture.input_epoch == input_epoch
}

} // verus!
