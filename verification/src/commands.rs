//! Commands on captures and leases: insert, submit and verify.
use crate::control::{captures_draft, ComposerControlState, ControlView, MAX_LEASE_COUNT};
use crate::digest::{text_digest, text_hash, TextDigest};
use crate::direct_send::{concat_contains, copy_ids, DirectPreparedSubmission};
use crate::fence::{FenceId, SubmitFence};
use crate::ids::{is_version_4, unused_id, Uuid};
use crate::lease::{
    has_live_submit_fence, has_unresolved_draft_provenance, Capture, DraftWitness, ExternalLease,
    ExternalLeaseState,
};
use crate::ledger::{
    filed, first_where, first_where_is, holds, index_is, index_of, keys, keys_are_held, same_places,
    without, without_keeps_others,
};
use crate::receipt::{CorrectionProposal, PreparedCorrection};
use crate::submission::ComposerLeaseId;
use crate::target::{
    available_draft, available_snapshot, lease_error_code, let_go_into, map_lease_error,
    ComposerControlTarget, ComposerLeaseError, ComposerSnapshot, SnapshotView,
};
use crate::text::same_text;
use crate::wire::{refused, ErrorCode, WireResult};
use vstd::prelude::*;
use vstd::string::*;

verus! {

/// A submission of composer text that is ready for dispatch. It carries text, so it has no
/// `Debug`.
pub struct PreparedSubmission {
    pub lease_id: Uuid,
    pub native: ComposerLeaseId,
    pub expected: String,
    pub fence: FenceId,
}

impl PreparedSubmission {
    pub fn native(&self) -> (native: ComposerLeaseId)
        ensures
            native == self.native,
    {
        self.native
    }

    pub fn expected(&self) -> (expected: &str)
        ensures
            expected@ == self.expected@,
    {
        self.expected.as_str()
    }

    pub fn fence(&self) -> (fence: FenceId)
        ensures
            fence == self.fence,
    {
        self.fence
    }
}

/// What a command came to.
pub enum CommandExecution {
    Complete(WireResult),
    Propose(CorrectionProposal),
    Correct(PreparedCorrection),
    Submit(PreparedSubmission),
    SubmitDirect(DirectPreparedSubmission),
}

/// The lease belongs to `thread_id` and guards the draft.
pub open spec fn guards_thread(thread_id: Seq<char>, fences: Seq<SubmitFence>) -> spec_fn(
    ExternalLease,
) -> bool {
    |lease: ExternalLease| lease.thread_id@ == thread_id && lease.has_live_fence(fences)
}

/// The lease can make room for another one in `thread_id`: it is a draft of that thread that
/// cannot have been sent, or its message has settled.
pub open spec fn can_retire(thread_id: Seq<char>, fences: Seq<SubmitFence>) -> spec_fn(
    ExternalLease,
) -> bool {
    |lease: ExternalLease|
        match lease.state {
            ExternalLeaseState::Draft { .. } => lease.thread_id@ == thread_id
                && !lease.has_unresolved_provenance() && !lease.has_live_fence(fences),
            ExternalLeaseState::SubmittedIntact { .. }
            | ExternalLeaseState::SubmissionAbandoned { .. } => !lease.has_live_fence(fences),
            _ => false,
        }
}

/// The composer once a retired lease is let go: text of the shown thread loses its owner.
pub open spec fn retires_into<T: ComposerControlTarget>(
    target: T,
    lease: ExternalLease,
    thread_id: Seq<char>,
    after: T,
) -> bool {
    match lease.state {
        ExternalLeaseState::Draft { native } if lease.thread_id@ == thread_id => let_go_into(
            target,
            native,
            after,
        ),
        _ => after == target,
    }
}

/// The captures of `before` moved on to `after`, where that is the same thread.
pub open spec fn moved_captures(
    captures: Seq<(Uuid, Capture)>,
    before: SnapshotView,
    after: Option<SnapshotView>,
    input_epoch: u64,
) -> Seq<(Uuid, Capture)> {
    match after {
        Some(now) if now.thread_id == before.thread_id => captures.map_values(
            |entry: (Uuid, Capture)|
                if captures_draft(entry.1, before, input_epoch) {
                    (
                        entry.0,
                        Capture {
                            text_hash: text_digest(now.text),
                            cursor: now.cursor,
                            ..entry.1
                        },
                    )
                } else {
                    entry
                },
        ),
        _ => captures,
    }
}

/// A lease on freshly inserted text.
pub open spec fn is_fresh_lease(
    lease: ExternalLease,
    native: ComposerLeaseId,
    text: Seq<char>,
    draft: SnapshotView,
    input_epoch: u64,
) -> bool {
    &&& lease.state == (ExternalLeaseState::Draft { native })
    &&& lease.thread_id@ == draft.thread_id
    &&& lease.expected_hash == text_digest(text)
    &&& lease.draft_witness == (DraftWitness {
        text_hash: text_digest(draft.text),
        cursor: draft.cursor,
        input_epoch,
    })
    &&& lease.submit_attempt is None
}

/// The capture holds `draft` as it is now.
fn capture_matches(capture: &Capture, snapshot: &ComposerSnapshot, input_epoch: u64) -> (matches:
    bool)
    ensures
        matches == captures_draft(*capture, snapshot@, input_epoch),
{
    same_text(capture.thread_id.as_str(), snapshot.thread_id.as_str()) && capture.text_hash
        == text_hash(snapshot.text.as_str()) && capture.cursor == snapshot.cursor
        && capture.input_epoch == input_epoch
}

impl ComposerControlState {
    /// The lease under `id`.
    pub open spec fn lease(self, id: Uuid) -> ExternalLease {
        filed(self.leases.entries@, id)
    }

    /// The lease is held.
    pub open spec fn leased(self, id: Uuid) -> bool {
        holds(self.leases.entries@, id)
    }

    /// Some lease of `thread_id` guards the draft.
    pub open spec fn thread_guarded(self, thread_id: Seq<char>) -> bool {
        first_where(self@.leases, guards_thread(thread_id, self@.fences), 0) < self@.leases.len()
    }

    /// `true` exactly when some lease of `thread_id` guards the draft.
    pub(crate) fn is_thread_guarded(&self, thread_id: &str) -> (guarded: bool)
        ensures
            guarded == self.thread_guarded(thread_id@),
    {
        let ghost wanted = guards_thread(thread_id@, self@.fences);
        let mut i: usize = 0;
        while i < self.leases.entries.len()
            invariant
                wanted == guards_thread(thread_id@, self@.fences),
                i <= self@.leases.len(),
                forall|k: int| 0 <= k < i ==> !wanted((#[trigger] self@.leases[k]).1),
            decreases self@.leases.len() - i,
        {
            if same_text(self.leases.entries[i].1.thread_id.as_str(), thread_id)
                && has_live_submit_fence(&self.leases.entries[i].1, &self.fences) {
                proof {
                    first_where_is(self@.leases, wanted, 0, i as nat);
                }
                return true;
            }
            i += 1;
        }
        proof {
            first_where_is(self@.leases, wanted, 0, self@.leases.len());
        }
        false
    }

    /// Which lease makes room where the table is full; the number of leases where none can.
    pub open spec fn retiring(self, thread_id: Seq<char>) -> nat {
        first_where(self@.leases, can_retire(thread_id, self@.fences), 0)
    }

    /// What making room for a lease in `thread_id` changes.
    pub open spec fn retire_step<T: ComposerControlTarget>(
        self,
        after: Self,
        target: T,
        after_target: T,
        thread_id: Seq<char>,
        room: bool,
    ) -> bool {
        let oldest = self.retiring(thread_id);
        if self@.leases.len() < MAX_LEASE_COUNT {
            room && after@ == self@ && after_target == target
        } else if oldest >= self@.leases.len() {
            !room && after@ == self@ && after_target == target
        } else {
            &&& room
            &&& after@ == (ControlView { leases: self@.leases.remove(oldest as int), ..self@ })
            &&& retires_into(target, self@.leases[oldest as int].1, thread_id, after_target)
        }
    }

    /// Makes room for a lease in `thread_id`, where that can be done without losing track of a
    /// message that may be on its way.
    fn retire_excess_leases<T: ComposerControlTarget>(
        &mut self,
        target: &mut T,
        thread_id: &str,
    ) -> (room: bool)
        requires
            old(self).well_formed(),
        ensures
            final(self).well_formed(),
            old(self).retire_step(*final(self), *old(target), *final(target), thread_id@, room),
            room ==> final(self)@.leases.len() < MAX_LEASE_COUNT,
    {
        if self.leases.len() < MAX_LEASE_COUNT {
            return true;
        }
        let ghost wanted = can_retire(thread_id@, self@.fences);
        let mut i: usize = 0;
        while i < self.leases.entries.len() && !self.retires(
            &self.leases.entries[i].1,
            thread_id,
        )
            invariant
                wanted == can_retire(thread_id@, self@.fences),
                i <= self@.leases.len(),
                forall|k: int| 0 <= k < i ==> !wanted((#[trigger] self@.leases[k]).1),
            decreases self@.leases.len() - i,
        {
            i += 1;
        }
        proof {
            first_where_is(self@.leases, wanted, 0, i as nat);
        }
        if i >= self.leases.entries.len() {
            return false;
        }
        proof {
            index_is(self@.leases, i as int);
            without_keeps_others(self@.leases, self@.leases[i as int].0);
        }
        let (_, oldest) = self.leases.entries.remove(i);
        if same_text(oldest.thread_id.as_str(), thread_id) {
            if let ExternalLeaseState::Draft { native } = oldest.state {
                let _kept = target.keep_owned_text(native);
            }
        }
        true
    }

    /// `true` exactly when the lease can make room for another one in `thread_id`.
    fn retires(&self, lease: &ExternalLease, thread_id: &str) -> (retires: bool)
        ensures
            retires == can_retire(thread_id@, self@.fences)(*lease),
    {
        match &lease.state {
            ExternalLeaseState::Draft { .. } => same_text(lease.thread_id.as_str(), thread_id)
                && !has_unresolved_draft_provenance(lease) && !has_live_submit_fence(
                lease,
                &self.fences,
            ),
            ExternalLeaseState::SubmittedIntact { .. }
            | ExternalLeaseState::SubmissionAbandoned { .. } => !has_live_submit_fence(
                lease,
                &self.fences,
            ),
            ExternalLeaseState::SubmissionPending { .. }
            | ExternalLeaseState::CorrectionPending { .. } => false,
        }
    }

    /// Moves the captures of `before` on to the draft that is shown now.
    pub(crate) fn rebase_matching_captures<T: ComposerControlTarget>(
        &mut self,
        target: &T,
        before: &ComposerSnapshot,
    )
        requires
            old(self).well_formed(),
        ensures
            final(self).well_formed(),
            final(self)@ == (ControlView {
                captures: moved_captures(
                    old(self)@.captures,
                    before@,
                    target.shown_draft(),
                    old(self).input_epoch,
                ),
                ..old(self)@
            }),
    {
        let after: ComposerSnapshot = match target.snapshot() {
            None => return,
            Some(after) => after,
        };
        if !same_text(after.thread_id.as_str(), before.thread_id.as_str()) {
            return;
        }
        let after_hash: TextDigest = text_hash(after.text.as_str());
        let ghost start = *self;
        let ghost captures = self@.captures;
        let ghost moved = moved_captures(captures, before@, Some(after@), self.input_epoch);
        let input_epoch: u64 = self.input_epoch;
        let mut i: usize = 0;
        while i < self.captures.entries.len()
            invariant
                start.well_formed(),
                captures == start@.captures,
                moved == moved_captures(captures, before@, Some(after@), input_epoch),
                after@.thread_id == before@.thread_id,
                after_hash == text_digest(after.text@),
                self@ == (ControlView { captures: self@.captures, ..start@ }),
                self.direct_sends.well_formed(),
                i <= self@.captures.len() == captures.len(),
                self@.captures =~= moved.take(i as int) + captures.subrange(
                    i as int,
                    captures.len() as int,
                ),
            decreases self@.captures.len() - i,
        {
            assert(self@.captures[i as int] == captures[i as int]);
            if capture_matches(&self.captures.entries[i].1, before, input_epoch) {
                self.captures.entries[i].1.text_hash = after_hash;
                self.captures.entries[i].1.cursor = after.cursor;
            }
            i += 1;
        }
        assert(self@.captures =~= moved);
        proof {
            same_places(captures, self@.captures);
        }
    }

    /// A new identifier: no lease has it, and none had it that was let go.
    fn fresh_lease_id(&self) -> (lease_id: Uuid)
        ensures
            !self.leased(lease_id),
            !self.kept_leases@.contains(lease_id),
            !self.unknown_acknowledged_leases@.contains(lease_id),
            is_version_4(lease_id),
    {
        let mut taken: Vec<Uuid> = self.leases.ids();
        let mut kept: Vec<Uuid> = copy_ids(&self.kept_leases);
        let mut acknowledged: Vec<Uuid> = copy_ids(&self.unknown_acknowledged_leases);
        taken.append(&mut kept);
        taken.append(&mut acknowledged);
        let lease_id: Uuid = unused_id(&taken);
        proof {
            keys_are_held(self@.leases, lease_id);
            concat_contains(
                keys(self@.leases),
                self.kept_leases@,
                self.unknown_acknowledged_leases@,
                lease_id,
            );
        }
        lease_id
    }

    /// Why an insertion is refused before anything is touched: the capture is gone, the composer
    /// is not there, the draft is not the captured one, a draft of the thread may have been sent,
    /// or there is no room.
    pub open spec fn insert_refusal<T: ComposerControlTarget>(
        self,
        target: &T,
        overlay: bool,
        capture_id: Uuid,
    ) -> Option<WireResult> {
        match available_draft(target, overlay) {
            _ if !holds(self@.captures, capture_id) => Some(refused(ErrorCode::CaptureUnavailable)),
            None => Some(refused(ErrorCode::ComposerUnavailable)),
            Some(draft) => if !captures_draft(
                filed(self@.captures, capture_id),
                draft,
                self.input_epoch,
            ) {
                Some(refused(ErrorCode::CaptureChanged))
            } else if self.thread_guarded(draft.thread_id) {
                Some(WireResult::Unknown)
            } else if self@.leases.len() >= MAX_LEASE_COUNT && self.retiring(draft.thread_id)
                >= self@.leases.len() {
                Some(refused(ErrorCode::LeaseUnavailable))
            } else {
                None
            },
        }
    }

    /// What `insert` answers and changes.
    pub open spec fn insert_step<T: ComposerControlTarget>(
        self,
        after: Self,
        target: T,
        after_target: T,
        overlay: bool,
        capture_id: Uuid,
        text: Seq<char>,
        result: WireResult,
    ) -> bool {
        match self.insert_refusal(&target, overlay, capture_id) {
            Some(refusal) => result == refusal && after@ == self@ && after_target == target,
            None => {
                let draft = available_draft(&target, overlay)->0;
                let full = self@.leases.len() >= MAX_LEASE_COUNT;
                let oldest = self.retiring(draft.thread_id) as int;
                let leases = if full {
                    self@.leases.remove(oldest)
                } else {
                    self@.leases
                };
                exists|ready: T, filled: T, inserted: Result<ComposerLeaseId, ComposerLeaseError>|
                    {
                        &&& #[trigger] ready.may_insert(text, filled, inserted)
                        &&& if full {
                            retires_into(
                                target,
                                self@.leases[oldest].1,
                                draft.thread_id,
                                ready,
                            )
                        } else {
                            ready == target
                        }
                        &&& self.inserted_step(
                            after,
                            after_target,
                            draft,
                            without(self@.captures, capture_id),
                            leases,
                            text,
                            filled,
                            inserted,
                            result,
                        )
                    }
            },
        }
    }

    /// What `insert` answers and changes once the composer is `filled` and answered `inserted`.
    /// `captures` and `leases` are those that are left.
    pub open spec fn inserted_step<T: ComposerControlTarget>(
        self,
        after: Self,
        after_target: T,
        draft: SnapshotView,
        captures: Seq<(Uuid, Capture)>,
        leases: Seq<(Uuid, ExternalLease)>,
        text: Seq<char>,
        filled: T,
        inserted: Result<ComposerLeaseId, ComposerLeaseError>,
        result: WireResult,
    ) -> bool {
        match inserted {
            Err(error) => {
                &&& result == refused(lease_error_code(error))
                &&& after@ == (ControlView { captures, leases, ..self@ })
                &&& after_target == filled
            },
            Ok(native) => match filled.shown_draft() {
                Some(now) if now.thread_id == draft.thread_id => {
                    &&& result matches WireResult::Inserted { lease_id }
                    &&& !holds(leases, lease_id)
                    &&& !self.kept_leases@.contains(lease_id)
                    &&& !self.unknown_acknowledged_leases@.contains(lease_id)
                    &&& is_version_4(lease_id)
                    &&& is_fresh_lease(after.lease(lease_id), native, text, now, self.input_epoch)
                    &&& after@ == (ControlView {
                        captures: moved_captures(captures, draft, Some(now), self.input_epoch),
                        leases: leases.push((lease_id, after.lease(lease_id))),
                        ..self@
                    })
                    &&& after_target == filled
                },
                _ => {
                    &&& result == refused(ErrorCode::ComposerUnavailable)
                    &&& after@ == (ControlView { captures, leases, ..self@ })
                    &&& let_go_into(filled, native, after_target)
                },
            },
        }
    }

    /// Inserts owned text where the draft is exactly the captured one.
    pub fn insert<T: ComposerControlTarget>(
        &mut self,
        target: &mut T,
        app_overlay_active: bool,
        capture_id: Uuid,
        text: String,
    ) -> (result: WireResult)
        requires
            old(self).well_formed(),
        ensures
            final(self).well_formed(),
            old(self).insert_step(
                *final(self),
                *old(target),
                *final(target),
                app_overlay_active,
                capture_id,
                text@,
                result,
            ),
    {
        let capture: Capture = match self.captures.get(capture_id) {
            Some(capture) => capture.copied(),
            None => return WireResult::not_applied(ErrorCode::CaptureUnavailable),
        };
        let snapshot: ComposerSnapshot = match available_snapshot(&*target, app_overlay_active) {
            Some(snapshot) => snapshot,
            None => return WireResult::not_applied(ErrorCode::ComposerUnavailable),
        };
        if !capture_matches(&capture, &snapshot, self.input_epoch) {
            return WireResult::not_applied(ErrorCode::CaptureChanged);
        }
        if self.is_thread_guarded(snapshot.thread_id.as_str()) {
            return WireResult::Unknown;
        }
        if !self.retire_excess_leases(target, snapshot.thread_id.as_str()) {
            return WireResult::not_applied(ErrorCode::LeaseUnavailable);
        }
        proof {
            without_keeps_others(self@.captures, capture_id);
        }
        self.captures.remove(capture_id);
        let expected_hash: TextDigest = text_hash(text.as_str());
        let ghost ready = *target;
        let inserted: Result<ComposerLeaseId, ComposerLeaseError> = target.insert_owned_text(
            text.as_str(),
        );
        assert(ready.may_insert(text@, *target, inserted));
        let native: ComposerLeaseId = match inserted {
            Ok(native) => native,
            Err(error) => return WireResult::not_applied(map_lease_error(error)),
        };
        let after: ComposerSnapshot = match target.snapshot() {
            Some(after) => after,
            None => {
                let _kept = target.keep_owned_text(native);
                return WireResult::not_applied(ErrorCode::ComposerUnavailable);
            },
        };
        if !same_text(after.thread_id.as_str(), snapshot.thread_id.as_str()) {
            let _kept = target.keep_owned_text(native);
            return WireResult::not_applied(ErrorCode::ComposerUnavailable);
        }
        self.rebase_matching_captures(&*target, &snapshot);
        let lease_id: Uuid = self.fresh_lease_id();
        let lease = ExternalLease {
            state: ExternalLeaseState::Draft { native },
            thread_id: snapshot.thread_id,
            expected_hash,
            draft_witness: DraftWitness {
                text_hash: text_hash(after.text.as_str()),
                cursor: after.cursor,
                input_epoch: self.input_epoch,
            },
            submit_attempt: None,
        };
        let ghost leases = self@.leases;
        let ghost pushed = leases.push((lease_id, lease));
        self.leases.push(lease_id, lease);
        proof {
            index_is(pushed, leases.len() as int);
            assert forall|id: Uuid| #[trigger] holds(pushed, id) implies holds(leases, id) || id
                == lease_id by {
                let at = index_of(pushed, id);
                if at < leases.len() {
                    assert(leases[at].0 == id);
                }
            }
        }
        WireResult::Inserted { lease_id }
    }
}

} // verus!
