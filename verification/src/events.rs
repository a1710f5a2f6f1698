//! Terminal events around a draft whose submission has an unknown outcome.
use crate::control::{ComposerControlState, ControlView};
use crate::digest::{text_digest, text_hash, TextDigest};
use crate::fence::{disclosed, is_disclosed, is_let_go, let_go, FenceId, SubmitFence};
use crate::ids::Uuid;
use crate::lease::{relinquish_unknown_submit, unknown_fence, unknown_fence_of, ExternalLease};
use crate::ledger::same_places;
use crate::target::{is_input, ComposerControlTarget, ComposerSnapshot, SnapshotView, TuiEvent};
use crate::text::same_text;
use vstd::prelude::*;
use vstd::string::*;

verus! {

/// What is done with a terminal event.
#[derive(Clone, Copy, Debug, PartialEq, Eq, Structural)]
pub enum TuiEventDisposition {
    Allow,
    BlockUnknownSubmission { disclose: bool },
    BlockDispatchingSubmission { disclose: bool },
}

/// What looking at the leases before an event comes to.
pub struct Sweep {
    pub leases: Seq<(Uuid, ExternalLease)>,
    pub fences: Seq<SubmitFence>,
    /// The fence that blocks the event.
    pub blocked: Option<FenceId>,
}

/// The leases from `from` on, looked at one after another while `draft` is shown. A lease of the
/// shown thread whose unknown outcome no longer guards this very draft is relinquished. The first
/// one that still does blocks an event that would submit.
pub open spec fn sweep(
    leases: Seq<(Uuid, ExternalLease)>,
    fences: Seq<SubmitFence>,
    draft: SnapshotView,
    submits: bool,
    from: nat,
) -> Sweep
    decreases leases.len() - from,
{
    if from >= leases.len() {
        Sweep { leases, fences, blocked: None }
    } else {
        let lease = leases[from as int].1;
        match unknown_fence(lease.submit_attempt) {
            Some(fence) if lease.thread_id@ == draft.thread_id => if is_let_go(fences, fence)
                || lease.draft_witness.text_hash != text_digest(draft.text) {
                sweep(
                    leases.update(from as int, (leases[from as int].0, lease.relinquished())),
                    let_go(fences, fence),
                    draft,
                    submits,
                    from + 1,
                )
            } else if submits {
                Sweep { leases, fences, blocked: Some(fence) }
            } else {
                sweep(leases, fences, draft, submits, from + 1)
            },
            _ => sweep(leases, fences, draft, submits, from + 1),
        }
    }
}

/// The lease belongs to the shown thread, its outcome is unknown and guarded, and the draft is no
/// longer the one it was sent with.
pub open spec fn drifted(lease: ExternalLease, draft: SnapshotView) -> bool {
    &&& unknown_fence(lease.submit_attempt) is Some
    &&& lease.thread_id@ == draft.thread_id
    &&& lease.draft_witness.text_hash != text_digest(draft.text)
}

/// The leases with the unknown outcomes of drifted ones no longer guarded.
pub open spec fn settled_leases(
    leases: Seq<(Uuid, ExternalLease)>,
    draft: SnapshotView,
) -> Seq<(Uuid, ExternalLease)> {
    leases.map_values(
        |entry: (Uuid, ExternalLease)|
            if drifted(entry.1, draft) {
                (entry.0, entry.1.relinquished())
            } else {
                entry
            },
    )
}

/// The fences once the first `count` leases no longer guard what drifted.
pub open spec fn settled_fences(
    leases: Seq<(Uuid, ExternalLease)>,
    fences: Seq<SubmitFence>,
    draft: SnapshotView,
    count: int,
) -> Seq<SubmitFence>
    decreases count,
{
    if count <= 0 {
        fences
    } else {
        let earlier = settled_fences(leases, fences, draft, count - 1);
        let lease = leases[count - 1].1;
        if drifted(lease, draft) {
            lease.fences_relinquished(earlier)
        } else {
            earlier
        }
    }
}

impl ComposerControlState {
    /// What an event is answered with and changes before it is routed.
    pub open spec fn event_step<T: ComposerControlTarget>(
        self,
        after: Self,
        event: TuiEvent,
        target: &T,
        dispatch_fence: Option<FenceId>,
        disposition: TuiEventDisposition,
    ) -> bool {
        if !is_input(event) {
            disposition == TuiEventDisposition::Allow && after@ == self@
        } else if target.submits(event) && dispatch_fence is Some {
            &&& disposition == (TuiEventDisposition::BlockDispatchingSubmission {
                disclose: !is_disclosed(self@.fences, dispatch_fence->0),
            })
            &&& after@ == (ControlView {
                fences: disclosed(self@.fences, dispatch_fence->0),
                ..self@
            })
        } else {
            match target.shown_draft() {
                None => disposition == TuiEventDisposition::Allow && after@ == self@,
                Some(draft) => {
                    let swept = sweep(self@.leases, self@.fences, draft, target.submits(event), 0);
                    match swept.blocked {
                        None => {
                            &&& disposition == TuiEventDisposition::Allow
                            &&& after@ == (ControlView {
                                leases: swept.leases,
                                fences: swept.fences,
                                ..self@
                            })
                        },
                        Some(fence) => {
                            &&& disposition == (TuiEventDisposition::BlockUnknownSubmission {
                                disclose: !is_disclosed(swept.fences, fence),
                            })
                            &&& after@ == (ControlView {
                                leases: swept.leases,
                                fences: disclosed(swept.fences, fence),
                                ..self@
                            })
                        },
                    }
                },
            }
        }
    }

    /// Fences a still-exact draft whose semantic submission has an unknown outcome. A submit key
    /// is consumed so that the user cannot duplicate a turn that may already exist. Other input
    /// is observed after routing by [`Self::finish_tui_event`], so that global shortcuts and
    /// thread switches cannot relinquish a draft that they did not change.
    pub fn prepare_tui_event<T: ComposerControlTarget>(
        &mut self,
        event: &TuiEvent,
        target: &T,
    ) -> (disposition: TuiEventDisposition)
        requires
            old(self).well_formed(),
        ensures
            final(self).well_formed(),
            old(self).event_step(*final(self), *event, target, None, disposition),
    {
        self.prepare_tui_event_inner(event, target, None)
    }

    /// Applies the submission identity captured when an input event arrived while the bounded
    /// semantic dispatch was still in flight. Such a submit event belongs to that dispatch and
    /// never becomes a second ordinary composer dispatch, even if the server later refuses.
    pub fn prepare_tui_event_during_submission<T: ComposerControlTarget>(
        &mut self,
        event: &TuiEvent,
        target: &T,
        dispatch_fence: FenceId,
    ) -> (disposition: TuiEventDisposition)
        requires
            old(self).well_formed(),
        ensures
            final(self).well_formed(),
            old(self).event_step(*final(self), *event, target, Some(dispatch_fence), disposition),
    {
        self.prepare_tui_event_inner(event, target, Some(dispatch_fence))
    }

    fn prepare_tui_event_inner<T: ComposerControlTarget>(
        &mut self,
        event: &TuiEvent,
        target: &T,
        dispatch_fence: Option<FenceId>,
    ) -> (disposition: TuiEventDisposition)
        requires
            old(self).well_formed(),
        ensures
            final(self).well_formed(),
            old(self).event_step(*final(self), *event, target, dispatch_fence, disposition),
    {
        if !matches!(event, TuiEvent::Key(_) | TuiEvent::Paste(_)) {
            return TuiEventDisposition::Allow;
        }
        let is_submission_event: bool = target.is_submission_event(event);
        if is_submission_event {
            if let Some(dispatch_fence) = dispatch_fence {
                let disclose: bool = self.fences.disclose_once(dispatch_fence);
                return TuiEventDisposition::BlockDispatchingSubmission { disclose };
            }
        }
        let snapshot: ComposerSnapshot = match target.snapshot() {
            None => return TuiEventDisposition::Allow,
            Some(snapshot) => snapshot,
        };
        let snapshot_hash: TextDigest = text_hash(snapshot.text.as_str());
        let ghost before = *self;
        let ghost draft = snapshot@;
        let mut i: usize = 0;
        while i < self.leases.entries.len()
            invariant
                before == *old(self),
                is_input(*event),
                is_submission_event == target.submits(*event),
                !is_submission_event || dispatch_fence is None,
                target.shown_draft() == Some(draft),
                before.well_formed(),
                draft == snapshot@,
                snapshot_hash == text_digest(snapshot.text@),
                self@ == (ControlView {
                    leases: self@.leases,
                    fences: self@.fences,
                    ..before@
                }),
                self.direct_sends.well_formed(),
                i <= self@.leases.len() == before@.leases.len(),
                forall|k: int|
                    0 <= k < self@.leases.len() ==> (#[trigger] self@.leases[k]).0
                        == before@.leases[k].0,
                sweep(before@.leases, before@.fences, draft, is_submission_event, 0) == sweep(
                    self@.leases,
                    self@.fences,
                    draft,
                    is_submission_event,
                    i as nat,
                ),
            decreases self@.leases.len() - i,
        {
            if let Some(fence) = unknown_fence_of(&self.leases.entries[i].1.submit_attempt) {
                if same_text(
                    self.leases.entries[i].1.thread_id.as_str(),
                    snapshot.thread_id.as_str(),
                ) {
                    if self.fences.is_relinquished(fence)
                        || self.leases.entries[i].1.draft_witness.text_hash != snapshot_hash {
                        let ghost leases = self@.leases;
                        relinquish_unknown_submit(
                            &mut self.leases.entries[i].1,
                            &mut self.fences,
                        );
                        assert(self@.leases =~= leases.update(
                            i as int,
                            (leases[i as int].0, leases[i as int].1.relinquished()),
                        ));
                    } else if is_submission_event {
                        let disclose: bool = self.fences.disclose_once(fence);
                        proof {
                            same_places(before@.leases, self@.leases);
                        }
                        return TuiEventDisposition::BlockUnknownSubmission { disclose };
                    }
                }
            }
            i += 1;
        }
        proof {
            same_places(before@.leases, self@.leases);
        }
        TuiEventDisposition::Allow
    }

    /// What an event changes after it was routed.
    pub open spec fn finish_event_step<T: ComposerControlTarget>(
        self,
        after: Self,
        target: &T,
    ) -> bool {
        match target.shown_draft() {
            None => after@ == self@,
            Some(draft) => after@ == (ControlView {
                leases: settled_leases(self@.leases, draft),
                fences: settled_fences(
                    self@.leases,
                    self@.fences,
                    draft,
                    self@.leases.len() as int,
                ),
                ..self@
            }),
        }
    }

    /// Resolves ambiguity only after an allowed event actually changed the active composer. It is
    /// called after the event went through every global and local key handler.
    pub fn finish_tui_event<T: ComposerControlTarget>(&mut self, target: &T)
        requires
            old(self).well_formed(),
        ensures
            final(self).well_formed(),
            old(self).finish_event_step(*final(self), target),
    {
        let snapshot: ComposerSnapshot = match target.snapshot() {
            None => return,
            Some(snapshot) => snapshot,
        };
        let snapshot_hash: TextDigest = text_hash(snapshot.text.as_str());
        let ghost before = *self;
        let ghost draft = snapshot@;
        let ghost settled = settled_leases(before@.leases, draft);
        let mut i: usize = 0;
        while i < self.leases.entries.len()
            invariant
                before.well_formed(),
                draft == snapshot@,
                snapshot_hash == text_digest(snapshot.text@),
                settled == settled_leases(before@.leases, draft),
                self@ == (ControlView {
                    leases: self@.leases,
                    fences: self@.fences,
                    ..before@
                }),
                self.direct_sends.well_formed(),
                i <= self@.leases.len() == before@.leases.len(),
                self@.leases =~= settled.take(i as int) + before@.leases.subrange(
                    i as int,
                    before@.leases.len() as int,
                ),
                self@.fences == settled_fences(
                    before@.leases,
                    before@.fences,
                    draft,
                    i as int,
                ),
            decreases self@.leases.len() - i,
        {
            assert(self@.leases[i as int] == before@.leases[i as int]);
            if same_text(
                self.leases.entries[i].1.thread_id.as_str(),
                snapshot.thread_id.as_str(),
            ) {
                let unresolved: bool = unknown_fence_of(
                    &self.leases.entries[i].1.submit_attempt,
                ).is_some();
                let still_exact: bool = self.leases.entries[i].1.draft_witness.text_hash
                    == snapshot_hash;
                if unresolved && !still_exact {
                    relinquish_unknown_submit(&mut self.leases.entries[i].1, &mut self.fences);
                }
            }
            i += 1;
        }
        assert(self@.leases =~= settled);
        proof {
            same_places(before@.leases, self@.leases);
        }
    }
}

} // verus!
