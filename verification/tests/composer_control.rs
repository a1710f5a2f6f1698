use std::collections::HashMap;
use std::ops::Range;

use composer_control::commands::{CommandExecution, PreparedSubmission};
use composer_control::control::{ComposerControlRequest, ComposerControlState, MAX_LEASE_COUNT};
use composer_control::correction::mechanical_correction_context;
use composer_control::digest::text_hash;
use composer_control::events::TuiEventDisposition;
use composer_control::ids::Uuid;
use composer_control::lease::{DraftWitness, ExternalLease, ExternalLeaseState, SubmitAttempt};
use composer_control::receipt::{
    CorrectionDispatchOutcome, CorrectionOrigin, CorrectionProposal, PreparedCorrection,
    ReplaceOutcome, SubmissionDispatchOutcome, SubmittedLeaseReceipt,
};
use composer_control::requests::{PendingComposerControlAction, RequestOutcome};
use composer_control::submission::{
    NativeComposerSubmission, NativeSubmittedLease, SubmittedComposerLease,
};
use composer_control::target::{
    ComposerControlTarget, ComposerLeaseError, ComposerSnapshot, TuiEvent,
};
use composer_control::wire::{
    session_guid_from_value, socket_file_name, ComposerCommand, ErrorCode, MutationOutcome,
    WireRequest, WireResult, PROTOCOL_VERSION,
};

/// The longest context value that the receiver takes without cutting it, in bytes.
const CONTEXT_BUDGET: usize = 4_000;

fn new_id() -> Uuid {
    uuid::Uuid::new_v4().as_u128()
}

fn version_of(id: Uuid) -> usize {
    uuid::Uuid::from_u128(id).get_version_num()
}

struct FakeTarget {
    available: bool,
    thread_id: String,
    text: String,
    cursor: usize,
    next_lease: u64,
    leases: HashMap<u64, Range<usize>>,
    submission_keys: Vec<crossterm::event::KeyEvent>,
    direct_send_available: bool,
    plain_draft_send_available: bool,
}

impl FakeTarget {
    fn new(text: &str) -> Self {
        Self {
            available: true,
            thread_id: "synthetic-thread".to_string(),
            text: text.to_string(),
            cursor: text.len(),
            next_lease: 1,
            leases: HashMap::new(),
            submission_keys: vec![
                crossterm::event::KeyEvent::new(
                    crossterm::event::KeyCode::Enter,
                    crossterm::event::KeyModifiers::NONE,
                ),
                crossterm::event::KeyEvent::new(
                    crossterm::event::KeyCode::Tab,
                    crossterm::event::KeyModifiers::NONE,
                ),
            ],
            direct_send_available: false,
            plain_draft_send_available: false,
        }
    }

    fn user_insert(&mut self, position: usize, text: &str) {
        let position = position.min(self.text.len());
        self.apply_insert_to_leases(position, text.len());
        self.text.insert_str(position, text);
        if self.cursor >= position {
            self.cursor += text.len();
        }
    }

    fn apply_insert_to_leases(&mut self, position: usize, inserted_len: usize) {
        self.leases.retain(|_, range| {
            if position <= range.start {
                range.start += inserted_len;
                range.end += inserted_len;
                true
            } else {
                position >= range.end
            }
        });
    }

    fn apply_replace_to_leases(&mut self, edit_range: Range<usize>, replacement_len: usize) {
        let removed_len = edit_range.end - edit_range.start;
        let delta = replacement_len as isize - removed_len as isize;
        self.leases.retain(|_, range| {
            if edit_range.end <= range.start {
                range.start = range.start.saturating_add_signed(delta);
                range.end = range.end.saturating_add_signed(delta);
                true
            } else {
                edit_range.start >= range.end
            }
        });
    }
}

impl ComposerControlTarget for FakeTarget {
    fn thread_id(&self) -> Option<String> {
        Some(self.thread_id.clone())
    }

    fn snapshot(&self) -> Option<ComposerSnapshot> {
        if self.available {
            Some(ComposerSnapshot::new(
                self.thread_id.clone(),
                self.text.clone(),
                self.cursor,
            ))
        } else {
            None
        }
    }

    fn insert_owned_text(&mut self, text: &str) -> Result<u64, ComposerLeaseError> {
        if text.is_empty() {
            return Err(ComposerLeaseError::EmptyText);
        }
        let start = self.cursor.min(self.text.len());
        self.apply_insert_to_leases(start, text.len());
        self.text.insert_str(start, text);
        self.cursor = start + text.len();
        let lease = self.next_lease;
        self.next_lease += 1;
        self.leases.insert(lease, start..self.cursor);
        Ok(lease)
    }

    fn verify_owned_text(
        &self,
        lease: u64,
        expected: &str,
    ) -> Result<(), ComposerLeaseError> {
        let range = self
            .leases
            .get(&lease)
            .ok_or(ComposerLeaseError::LeaseUnavailable)?;
        if self.text.get(range.clone()) != Some(expected) {
            return Err(ComposerLeaseError::ExpectedTextMismatch);
        }
        Ok(())
    }

    fn keep_owned_text(&mut self, lease: u64) -> Result<(), ComposerLeaseError> {
        self.leases
            .remove(&lease)
            .map(|_| ())
            .ok_or(ComposerLeaseError::LeaseUnavailable)
    }

    fn replace_owned_text(
        &mut self,
        lease: u64,
        expected: &str,
        replacement: &str,
    ) -> Result<(), ComposerLeaseError> {
        let Some(range) = self.leases.remove(&lease) else {
            return Err(ComposerLeaseError::LeaseUnavailable);
        };
        if self.text.get(range.clone()) != Some(expected) {
            return Err(ComposerLeaseError::ExpectedTextMismatch);
        }
        if self.cursor >= range.start && self.cursor < range.end {
            return Err(ComposerLeaseError::CursorConflicts);
        }
        self.apply_replace_to_leases(range.clone(), replacement.len());
        self.text.replace_range(range.clone(), replacement);
        let removed_len = range.end - range.start;
        self.cursor = if self.cursor < range.start {
            self.cursor
        } else if self.cursor <= range.end {
            range.start + replacement.len()
        } else {
            self.cursor - removed_len + replacement.len()
        };
        Ok(())
    }

    fn direct_send_acquisition_available(&self) -> bool {
        self.direct_send_available
    }

    fn plain_draft_send_acquisition_available(&self) -> bool {
        self.plain_draft_send_available
    }

    fn is_submission_event(&self, event: &TuiEvent) -> bool {
        let TuiEvent::Key(key) = event else {
            return false;
        };
        self.submission_keys.iter().any(|binding| {
            binding.code == key.code
                && binding.modifiers == key.modifiers
                && binding.kind == key.kind
        })
    }
}

/// Measures a proposed correction against the budget and goes on with it.
fn measured(state: &mut ComposerControlState, proposal: CorrectionProposal) -> CommandExecution {
    let truncated = proposal
        .drafts
        .iter()
        .any(|draft| draft.len() > CONTEXT_BUDGET);
    match state.admit_correction(proposal, truncated) {
        ReplaceOutcome::Complete(result) => CommandExecution::Complete(result),
        ReplaceOutcome::Propose(_) => panic!("an admitted correction is not proposed again"),
        ReplaceOutcome::Correct(correction) => CommandExecution::Correct(correction),
    }
}

fn prepare(
    state: &mut ComposerControlState,
    command: ComposerCommand,
    target: &mut FakeTarget,
    app_overlay_active: bool,
) -> CommandExecution {
    match state.prepare_command(command, target, app_overlay_active) {
        CommandExecution::Propose(proposal) => measured(state, proposal),
        execution => execution,
    }
}

/// Carries a command out without an app-server: what would be dispatched is refused.
fn execute(
    state: &mut ComposerControlState,
    command: ComposerCommand,
    target: &mut FakeTarget,
    app_overlay_active: bool,
) -> WireResult {
    match prepare(state, command, target, app_overlay_active) {
        CommandExecution::Complete(result) => result,
        CommandExecution::Correct(correction) => {
            state.finish_correction(correction, CorrectionDispatchOutcome::NotApplied)
        }
        CommandExecution::Submit(_) | CommandExecution::SubmitDirect(_) => {
            WireResult::not_applied(ErrorCode::SubmissionUnavailable)
        }
        CommandExecution::Propose(_) => panic!("a correction is measured before"),
    }
}

fn capture(state: &mut ComposerControlState, target: &mut FakeTarget) -> Uuid {
    match execute(
        state,
        ComposerCommand::Capture,
        target,
        /*app_overlay_active*/ false,
    ) {
        WireResult::Captured { capture_id } => capture_id,
        _ => panic!("synthetic capture should succeed"),
    }
}

fn insert(
    state: &mut ComposerControlState,
    target: &mut FakeTarget,
    capture_id: Uuid,
    text: &str,
) -> Uuid {
    match execute(
        state,
        ComposerCommand::Insert {
            capture_id,
            text: text.to_string(),
        },
        target,
        /*app_overlay_active*/ false,
    ) {
        WireResult::Inserted { lease_id } => lease_id,
        _ => panic!("synthetic insert should succeed"),
    }
}

fn stored(state: &ComposerControlState, lease_id: Uuid) -> &ExternalLease {
    state.leases.get(lease_id).expect("external lease")
}

fn mark_submission_pending(
    state: &mut ComposerControlState,
    target: &FakeTarget,
    lease_ids: &[Uuid],
) -> Uuid {
    let native_leases = lease_ids
        .iter()
        .map(|lease_id| match stored(state, *lease_id).state {
            ExternalLeaseState::Draft { native } => NativeSubmittedLease {
                native,
                range: target
                    .leases
                    .get(&native)
                    .expect("native lease range")
                    .clone(),
            },
            _ => panic!("lease should still be draft-owned"),
        })
        .collect::<Vec<_>>();
    let submission_id = new_id();
    state.note_submission_pending_by_native(
        "synthetic-thread",
        submission_id,
        &target.text,
        &native_leases,
    );
    submission_id
}

fn mark_submitted(
    state: &mut ComposerControlState,
    target: &FakeTarget,
    lease_ids: &[Uuid],
) -> Uuid {
    let submission_id = mark_submission_pending(state, target, lease_ids);
    state.note_submission_committed_id("synthetic-thread", submission_id);
    submission_id
}

fn pending_correction(
    state: &mut ComposerControlState,
    target: &mut FakeTarget,
    lease_id: Uuid,
    expected: &str,
    replacement: &str,
) -> PreparedCorrection {
    match prepare(
        state,
        ComposerCommand::Replace {
            lease_id,
            expected: expected.to_string(),
            replacement: replacement.to_string(),
        },
        target,
        /*app_overlay_active*/ false,
    ) {
        CommandExecution::Correct(correction) => correction,
        CommandExecution::Complete(_) => panic!("submitted replacement should dispatch correction"),
        _ => panic!("replacement must not dispatch a submission"),
    }
}

fn start_submit(
    state: &mut ComposerControlState,
    target: &mut FakeTarget,
    lease_id: Uuid,
    expected: &str,
) -> PreparedSubmission {
    match state.handle_ui_request(
        ComposerControlRequest {
            command: ComposerCommand::Submit {
                lease_id,
                expected: expected.to_string(),
            },
            expired: false,
        },
        target,
        /*app_overlay_active*/ false,
    ) {
        RequestOutcome::Pending(PendingComposerControlAction::Submission(pending)) => pending,
        _ => panic!("exact draft should produce a pending submit action"),
    }
}

fn inserted_draft(expected: &str) -> (ComposerControlState, FakeTarget, Uuid) {
    let mut state = ComposerControlState::new();
    let mut target = FakeTarget::new("");
    let capture_id = capture(&mut state, &mut target);
    let lease_id = insert(&mut state, &mut target, capture_id, expected);
    (state, target, lease_id)
}

fn synthetic_receipt(text: &str) -> SubmittedLeaseReceipt {
    SubmittedLeaseReceipt {
        submission_id: new_id(),
        submitted_text: text.to_string(),
        range: 0..text.len(),
    }
}

fn stored_lease(
    state: ExternalLeaseState,
    thread_id: &str,
    submit_attempt: Option<SubmitAttempt>,
) -> ExternalLease {
    ExternalLease {
        state,
        thread_id: thread_id.to_string(),
        expected_hash: text_hash("pinned"),
        draft_witness: DraftWitness {
            text_hash: text_hash("pinned"),
            cursor: "pinned".len(),
            input_epoch: 0,
        },
        submit_attempt,
    }
}

fn push_stored_lease(state: &mut ComposerControlState, lease: ExternalLease) -> Uuid {
    let lease_id = new_id();
    state.leases.push(lease_id, lease);
    lease_id
}

/// The correction's text where it fits the budget.
fn correction_context(
    submission_id: Uuid,
    submitted_text: &str,
    lease_range: &Range<usize>,
    expected: &str,
    replacement: &str,
) -> Option<String> {
    let mut drafts = mechanical_correction_context(
        submission_id,
        submitted_text,
        lease_range,
        expected,
        replacement,
    )?;
    if drafts.iter().any(|draft| draft.len() > CONTEXT_BUDGET) {
        return None;
    }
    drafts.pop()
}

#[test]
fn capture_insert_verify_keep_and_replace_are_serialized() {
    let mut state = ComposerControlState::new();
    let mut target = FakeTarget::new("draft");

    let first_capture = capture(&mut state, &mut target);
    let first_lease = insert(&mut state, &mut target, first_capture, " fast");
    let second_capture = capture(&mut state, &mut target);
    let second_lease = insert(&mut state, &mut target, second_capture, " pass");

    target.user_insert(/*position*/ 0, "prefix ");
    assert!(matches!(
        execute(
            &mut state,
            ComposerCommand::Verify {
                lease_id: first_lease,
                expected: " fast".to_string(),
            },
            &mut target,
            /*app_overlay_active*/ false,
        ),
        WireResult::Verified
    ));
    assert!(matches!(
        execute(
            &mut state,
            ComposerCommand::Replace {
                lease_id: first_lease,
                expected: " fast".to_string(),
                replacement: " final".to_string(),
            },
            &mut target,
            /*app_overlay_active*/ false,
        ),
        WireResult::Replaced
    ));
    assert!(matches!(
        execute(
            &mut state,
            ComposerCommand::Verify {
                lease_id: second_lease,
                expected: " pass".to_string(),
            },
            &mut target,
            /*app_overlay_active*/ false,
        ),
        WireResult::Verified
    ));
    assert!(matches!(
        execute(
            &mut state,
            ComposerCommand::Replace {
                lease_id: second_lease,
                expected: " pass".to_string(),
                replacement: " done".to_string(),
            },
            &mut target,
            /*app_overlay_active*/ false,
        ),
        WireResult::Replaced
    ));

    let kept_capture = capture(&mut state, &mut target);
    let kept_lease = insert(&mut state, &mut target, kept_capture, " kept");
    assert!(matches!(
        execute(
            &mut state,
            ComposerCommand::Keep {
                lease_id: kept_lease,
            },
            &mut target,
            /*app_overlay_active*/ false,
        ),
        WireResult::Kept
    ));
    assert_eq!(target.text, "prefix draft final done kept");
}

#[test]
fn capture_compare_and_swap_rejects_intervening_input_and_snapshot_changes() {
    let mut state = ComposerControlState::new();
    let mut target = FakeTarget::new("draft");
    let input_capture = capture(&mut state, &mut target);
    state.note_tui_event(&TuiEvent::Paste("synthetic".to_string()));
    assert!(matches!(
        execute(
            &mut state,
            ComposerCommand::Insert {
                capture_id: input_capture,
                text: " fast".to_string(),
            },
            &mut target,
            /*app_overlay_active*/ false,
        ),
        WireResult::Error {
            code: ErrorCode::CaptureChanged,
            outcome: MutationOutcome::NotApplied,
        }
    ));

    let cursor_capture = capture(&mut state, &mut target);
    target.cursor = 0;
    assert!(matches!(
        execute(
            &mut state,
            ComposerCommand::Insert {
                capture_id: cursor_capture,
                text: "fast ".to_string(),
            },
            &mut target,
            /*app_overlay_active*/ false,
        ),
        WireResult::Error {
            code: ErrorCode::CaptureChanged,
            ..
        }
    ));

    target.cursor = target.text.len();
    let thread_capture = capture(&mut state, &mut target);
    target.thread_id = "other-synthetic-thread".to_string();
    assert!(matches!(
        execute(
            &mut state,
            ComposerCommand::Insert {
                capture_id: thread_capture,
                text: " fast".to_string(),
            },
            &mut target,
            /*app_overlay_active*/ false,
        ),
        WireResult::Error {
            code: ErrorCode::CaptureChanged,
            ..
        }
    ));
}

#[test]
fn lease_capacity_reclaims_oldest_confirmed_terminal_even_after_unknown_dispatch() {
    let mut state = ComposerControlState::new();
    let mut target = FakeTarget::new("human draft");
    let mut oldest_id = None;
    for index in 0..MAX_LEASE_COUNT {
        let text = format!("submitted-{index}");
        let lease_id = push_stored_lease(
            &mut state,
            stored_lease(
                ExternalLeaseState::SubmittedIntact {
                    receipt: synthetic_receipt(&text),
                },
                &format!("settled-{index}"),
                Some(SubmitAttempt::Resolved {
                    result: if index == 0 {
                        WireResult::Unknown
                    } else {
                        WireResult::SendAccepted
                    },
                    guard: None,
                }),
            ),
        );
        oldest_id.get_or_insert(lease_id);
    }

    let capture_id = capture(&mut state, &mut target);
    let inserted_id = insert(&mut state, &mut target, capture_id, " + dictated");
    let oldest_id = oldest_id.expect("terminal lease");
    assert_eq!(target.text, "human draft + dictated");
    assert_eq!(target.leases.len(), 1);
    assert!(!state.leases.contains_key(oldest_id));
    assert!(state.leases.contains_key(inserted_id));
    assert_eq!(state.leases.len(), MAX_LEASE_COUNT);
    assert!(matches!(
        execute(
            &mut state,
            ComposerCommand::Verify {
                lease_id: oldest_id,
                expected: "submitted-0".to_string(),
            },
            &mut target,
            /*app_overlay_active*/ false,
        ),
        WireResult::Error {
            code: ErrorCode::LeaseUnavailable,
            outcome: MutationOutcome::NotApplied,
        }
    ));
}

#[test]
fn lease_capacity_reclaims_oldest_settled_draft_without_removing_its_text() {
    let mut state = ComposerControlState::new();
    let settled_text = "x".repeat(MAX_LEASE_COUNT);
    let mut target = FakeTarget::new(&settled_text);
    target.next_lease = MAX_LEASE_COUNT as u64 + 1;
    let mut oldest_id = None;
    for index in 0..MAX_LEASE_COUNT {
        let native = index as u64 + 1;
        target.leases.insert(native, index..index + 1);
        let lease_id = push_stored_lease(
            &mut state,
            ExternalLease {
                state: ExternalLeaseState::Draft { native },
                thread_id: target.thread_id.clone(),
                expected_hash: text_hash("x"),
                draft_witness: DraftWitness {
                    text_hash: text_hash(&settled_text),
                    cursor: settled_text.len(),
                    input_epoch: 0,
                },
                submit_attempt: None,
            },
        );
        oldest_id.get_or_insert(lease_id);
    }

    let capture_id = capture(&mut state, &mut target);
    let inserted_id = insert(&mut state, &mut target, capture_id, "new");
    let oldest_id = oldest_id.expect("settled draft lease");
    assert_eq!(target.text, format!("{settled_text}new"));
    assert!(!target.leases.contains_key(&1));
    assert!(!state.leases.contains_key(oldest_id));
    assert!(state.leases.contains_key(inserted_id));
    assert_eq!(state.leases.len(), MAX_LEASE_COUNT);
    assert_eq!(target.leases.len(), MAX_LEASE_COUNT);
}

#[test]
fn lease_capacity_keeps_unknown_and_correction_pending_leases_pinned() {
    let mut state = ComposerControlState::new();
    let mut target = FakeTarget::new("");
    let unknown_fence = state.fences.raise();
    let unknown_id = push_stored_lease(
        &mut state,
        stored_lease(
            ExternalLeaseState::SubmittedIntact {
                receipt: synthetic_receipt("submitted"),
            },
            "unknown-thread",
            Some(SubmitAttempt::Resolved {
                result: WireResult::Unknown,
                guard: Some(unknown_fence),
            }),
        ),
    );
    let correction_id = push_stored_lease(
        &mut state,
        stored_lease(
            ExternalLeaseState::CorrectionPending {
                receipt: synthetic_receipt("submitted"),
                correction_id: new_id(),
                expected: "submitted".to_string(),
                replacement: "corrected".to_string(),
                payload: "correction".to_string(),
            },
            "correction-thread",
            Some(SubmitAttempt::Resolved {
                result: WireResult::SendAccepted,
                guard: None,
            }),
        ),
    );
    let mut oldest_terminal = None;
    for index in 2..MAX_LEASE_COUNT {
        let lease_id = push_stored_lease(
            &mut state,
            stored_lease(
                if index % 2 == 0 {
                    ExternalLeaseState::SubmissionAbandoned {
                        receipt: synthetic_receipt("submitted"),
                    }
                } else {
                    ExternalLeaseState::SubmittedIntact {
                        receipt: synthetic_receipt("submitted"),
                    }
                },
                &format!("settled-{index}"),
                Some(SubmitAttempt::Resolved {
                    result: if index % 2 == 0 {
                        WireResult::SubmissionAbandoned
                    } else {
                        WireResult::SendAccepted
                    },
                    guard: None,
                }),
            ),
        );
        oldest_terminal.get_or_insert(lease_id);
    }

    let capture_id = capture(&mut state, &mut target);
    let inserted_id = insert(&mut state, &mut target, capture_id, "new");
    assert!(state.leases.contains_key(unknown_id));
    assert!(state.leases.contains_key(correction_id));
    assert!(
        !state
            .leases
            .contains_key(oldest_terminal.expect("terminal lease"))
    );
    assert!(state.leases.contains_key(inserted_id));
    assert_eq!(state.leases.len(), MAX_LEASE_COUNT);
    assert_eq!(target.text, "new");
}

#[test]
fn lease_capacity_fails_visibly_without_mutating_when_every_lease_is_pinned() {
    let mut all_pinned = ComposerControlState::new();
    let mut untouched = FakeTarget::new("");
    for index in 0..MAX_LEASE_COUNT {
        let lease = match index {
            0 => stored_lease(
                ExternalLeaseState::Draft { native: 10_000 },
                "other-thread",
                None,
            ),
            1 => stored_lease(
                ExternalLeaseState::Draft { native: 10_001 },
                "dispatching-thread",
                Some(SubmitAttempt::Dispatching {
                    fence: all_pinned.fences.raise(),
                }),
            ),
            2 => stored_lease(
                ExternalLeaseState::Draft { native: 10_002 },
                "synthetic-thread",
                Some(SubmitAttempt::Resolved {
                    result: WireResult::Unknown,
                    guard: None,
                }),
            ),
            3 => stored_lease(
                ExternalLeaseState::CorrectionPending {
                    receipt: synthetic_receipt("submitted"),
                    correction_id: new_id(),
                    expected: "submitted".to_string(),
                    replacement: "corrected".to_string(),
                    payload: "correction".to_string(),
                },
                "correction-thread",
                Some(SubmitAttempt::Resolved {
                    result: WireResult::SendAccepted,
                    guard: None,
                }),
            ),
            _ => stored_lease(
                ExternalLeaseState::SubmissionPending {
                    receipt: synthetic_receipt("submitted"),
                },
                &format!("pending-{index}"),
                Some(SubmitAttempt::Resolved {
                    result: WireResult::SendAccepted,
                    guard: None,
                }),
            ),
        };
        push_stored_lease(&mut all_pinned, lease);
    }
    let pinned_ids = all_pinned.leases.ids();
    let blocked_capture = capture(&mut all_pinned, &mut untouched);
    assert!(matches!(
        execute(
            &mut all_pinned,
            ComposerCommand::Insert {
                capture_id: blocked_capture,
                text: "must not appear".to_string(),
            },
            &mut untouched,
            /*app_overlay_active*/ false,
        ),
        WireResult::Error {
            code: ErrorCode::LeaseUnavailable,
            outcome: MutationOutcome::NotApplied,
        }
    ));
    assert_eq!(untouched.text, "");
    assert_eq!(untouched.cursor, 0);
    assert_eq!(untouched.next_lease, 1);
    assert!(untouched.leases.is_empty());
    assert!(all_pinned.captures.contains_key(blocked_capture));
    assert_eq!(all_pinned.leases.len(), MAX_LEASE_COUNT);
    assert_eq!(
        all_pinned.leases.ids(),
        pinned_ids
    );
}

#[test]
fn captures_rebase_only_across_acknowledged_native_mutations() {
    let mut state = ComposerControlState::new();
    let mut target = FakeTarget::new("draft");

    let capture_a = capture(&mut state, &mut target);
    let capture_b = capture(&mut state, &mut target);
    let lease_a = insert(&mut state, &mut target, capture_a, " A");
    let lease_b = insert(&mut state, &mut target, capture_b, " B");
    assert_eq!(target.text, "draft A B");

    let capture_c = capture(&mut state, &mut target);
    let capture_d = capture(&mut state, &mut target);
    let lease_c = insert(&mut state, &mut target, capture_c, " C");
    state.note_tui_event(&TuiEvent::Key(crossterm::event::KeyEvent::new(
        crossterm::event::KeyCode::Char('x'),
        crossterm::event::KeyModifiers::NONE,
    )));
    assert!(matches!(
        execute(
            &mut state,
            ComposerCommand::Insert {
                capture_id: capture_d,
                text: " D".to_string(),
            },
            &mut target,
            /*app_overlay_active*/ false,
        ),
        WireResult::Error {
            code: ErrorCode::CaptureChanged,
            outcome: MutationOutcome::NotApplied,
        }
    ));

    let capture_e = capture(&mut state, &mut target);
    assert!(matches!(
        execute(
            &mut state,
            ComposerCommand::Replace {
                lease_id: lease_c,
                expected: " C".to_string(),
                replacement: " corrected C".to_string(),
            },
            &mut target,
            /*app_overlay_active*/ false,
        ),
        WireResult::Replaced
    ));
    let _lease_e = insert(&mut state, &mut target, capture_e, " E");
    assert_eq!(target.text, "draft A B corrected C E");

    assert!(state.leases.contains_key(lease_a));
    assert!(state.leases.contains_key(lease_b));
}

#[test]
fn accepted_submission_survives_composer_clear_for_verify_and_keep() {
    let mut state = ComposerControlState::new();
    let mut target = FakeTarget::new("");
    let capture_id = capture(&mut state, &mut target);
    let lease_id = insert(&mut state, &mut target, capture_id, "transcribed");
    mark_submitted(&mut state, &target, &[lease_id]);

    target.thread_id = "different-thread".to_string();
    target.text.clear();
    target.cursor = 0;
    target.leases.clear();
    assert!(matches!(
        execute(
            &mut state,
            ComposerCommand::Verify {
                lease_id,
                expected: "transcribed".to_string(),
            },
            &mut target,
            /*app_overlay_active*/ false,
        ),
        WireResult::SubmittedIntact
    ));
    assert!(matches!(
        execute(
            &mut state,
            ComposerCommand::Keep { lease_id },
            &mut target,
            /*app_overlay_active*/ false,
        ),
        WireResult::Kept
    ));
    assert!(target.text.is_empty());
}

#[test]
fn dispatching_submit_consumes_default_and_custom_queue_bindings() {
    let (mut state, mut target, lease_id) = inserted_draft("dictated");
    let custom_queue = crossterm::event::KeyEvent::new(
        crossterm::event::KeyCode::Char('q'),
        crossterm::event::KeyModifiers::CONTROL,
    );
    target.submission_keys.push(custom_queue);
    let pending = start_submit(&mut state, &mut target, lease_id, "dictated");
    let dispatch_fence = pending.fence();

    let default_queue = TuiEvent::Key(crossterm::event::KeyEvent::new(
        crossterm::event::KeyCode::Tab,
        crossterm::event::KeyModifiers::NONE,
    ));
    assert_eq!(
        state.prepare_tui_event_during_submission(&default_queue, &target, dispatch_fence),
        TuiEventDisposition::BlockDispatchingSubmission { disclose: true }
    );
    let ordinary_input = TuiEvent::Key(crossterm::event::KeyEvent::new(
        crossterm::event::KeyCode::Char('x'),
        crossterm::event::KeyModifiers::NONE,
    ));
    assert_eq!(
        state.prepare_tui_event_during_submission(&ordinary_input, &target, dispatch_fence),
        TuiEventDisposition::Allow
    );
    assert_eq!(
        state.prepare_tui_event_during_submission(
            &TuiEvent::Key(custom_queue),
            &target,
            dispatch_fence,
        ),
        TuiEventDisposition::BlockDispatchingSubmission { disclose: false }
    );

    assert_eq!(
        state.finish_submission(
            pending,
            SubmissionDispatchOutcome::NotApplied(ErrorCode::SubmissionUnavailable),
        ),
        WireResult::not_applied(ErrorCode::SubmissionUnavailable)
    );
}

#[test]
fn explicit_submit_refusal_preserves_the_draft_and_consumes_queued_submit_events() {
    let (mut state, mut target, lease_id) = inserted_draft("dictated");
    let pending = start_submit(&mut state, &mut target, lease_id, "dictated");
    let dispatch_fence = pending.fence();

    assert_eq!(
        state.finish_submission(
            pending,
            SubmissionDispatchOutcome::NotApplied(ErrorCode::SubmissionUnavailable),
        ),
        WireResult::not_applied(ErrorCode::SubmissionUnavailable)
    );
    assert_eq!(target.text, "dictated");

    let enter = TuiEvent::Key(crossterm::event::KeyEvent::new(
        crossterm::event::KeyCode::Enter,
        crossterm::event::KeyModifiers::NONE,
    ));
    assert_eq!(
        state.prepare_tui_event_during_submission(&enter, &target, dispatch_fence),
        TuiEventDisposition::BlockDispatchingSubmission { disclose: true }
    );
    assert_eq!(
        state.prepare_tui_event_during_submission(&enter, &target, dispatch_fence),
        TuiEventDisposition::BlockDispatchingSubmission { disclose: false }
    );
    assert_eq!(
        state.prepare_tui_event(&enter, &target),
        TuiEventDisposition::Allow
    );

    assert!(matches!(
        prepare(
            &mut state,
            ComposerCommand::Submit {
                lease_id,
                expected: "dictated".to_string(),
            },
            &mut target,
            /*app_overlay_active*/ false,
        ),
        CommandExecution::Complete(WireResult::Error {
            code: ErrorCode::SubmissionUnavailable,
            outcome: MutationOutcome::NotApplied,
        })
    ));
    assert!(matches!(
        execute(
            &mut state,
            ComposerCommand::Verify {
                lease_id,
                expected: "dictated".to_string(),
            },
            &mut target,
            /*app_overlay_active*/ false,
        ),
        WireResult::Verified
    ));
}

#[test]
fn accepted_submit_consumes_dispatch_window_enter_after_the_draft_is_cleared() {
    let (mut state, mut target, lease_id) = inserted_draft("dictated");
    let pending = start_submit(&mut state, &mut target, lease_id, "dictated");
    let dispatch_fence = pending.fence();
    mark_submission_pending(&mut state, &target, &[lease_id]);

    target.text.clear();
    target.cursor = 0;
    target.leases.clear();
    assert_eq!(
        state.finish_submission(pending, SubmissionDispatchOutcome::Accepted),
        WireResult::SendAccepted
    );

    let enter = TuiEvent::Key(crossterm::event::KeyEvent::new(
        crossterm::event::KeyCode::Enter,
        crossterm::event::KeyModifiers::NONE,
    ));
    assert_eq!(
        state.prepare_tui_event_during_submission(&enter, &target, dispatch_fence),
        TuiEventDisposition::BlockDispatchingSubmission { disclose: true }
    );
}

#[test]
fn dispatch_window_enter_is_consumed_after_an_earlier_buffered_edit() {
    let (mut state, mut target, lease_id) = inserted_draft("dictated");
    let pending = start_submit(&mut state, &mut target, lease_id, "dictated");
    let dispatch_fence = pending.fence();
    state.finish_submission(
        pending,
        SubmissionDispatchOutcome::NotApplied(ErrorCode::SubmissionUnavailable),
    );

    let edit = TuiEvent::Key(crossterm::event::KeyEvent::new(
        crossterm::event::KeyCode::Char('x'),
        crossterm::event::KeyModifiers::NONE,
    ));
    assert_eq!(
        state.prepare_tui_event_during_submission(&edit, &target, dispatch_fence),
        TuiEventDisposition::Allow
    );
    state.note_tui_event(&edit);
    target.user_insert(target.text.len(), "x");
    state.finish_tui_event(&target);

    let enter = TuiEvent::Key(crossterm::event::KeyEvent::new(
        crossterm::event::KeyCode::Enter,
        crossterm::event::KeyModifiers::NONE,
    ));
    assert_eq!(
        state.prepare_tui_event_during_submission(&enter, &target, dispatch_fence),
        TuiEventDisposition::BlockDispatchingSubmission { disclose: true }
    );
}

#[test]
fn accepted_submit_is_pending_until_commit_and_retries_observe_stable_state() {
    let (mut state, mut target, lease_id) = inserted_draft("dictated");
    let pending = start_submit(&mut state, &mut target, lease_id, "dictated");

    assert!(matches!(
        prepare(
            &mut state,
            ComposerCommand::Submit {
                lease_id,
                expected: "dictated".to_string(),
            },
            &mut target,
            /*app_overlay_active*/ false,
        ),
        CommandExecution::Complete(WireResult::Unknown)
    ));

    let submission_id = mark_submission_pending(&mut state, &target, &[lease_id]);
    assert_eq!(
        state.finish_submission(pending, SubmissionDispatchOutcome::Accepted),
        WireResult::SendAccepted
    );
    assert!(matches!(
        execute(
            &mut state,
            ComposerCommand::Verify {
                lease_id,
                expected: "dictated".to_string(),
            },
            &mut target,
            /*app_overlay_active*/ false,
        ),
        WireResult::SubmissionPending
    ));
    assert!(matches!(
        prepare(
            &mut state,
            ComposerCommand::Submit {
                lease_id,
                expected: "dictated".to_string(),
            },
            &mut target,
            /*app_overlay_active*/ false,
        ),
        CommandExecution::Complete(WireResult::SendAccepted)
    ));

    state.note_submission_committed_id("synthetic-thread", submission_id);
    assert!(matches!(
        prepare(
            &mut state,
            ComposerCommand::Submit {
                lease_id,
                expected: "dictated".to_string(),
            },
            &mut target,
            /*app_overlay_active*/ false,
        ),
        CommandExecution::Complete(WireResult::SendAccepted)
    ));
}

#[test]
fn unknown_submit_fences_submit_and_queue_bindings_until_the_user_edits() {
    let (mut state, mut target, lease_id) = inserted_draft("dictated");
    let custom_queue = crossterm::event::KeyEvent::new(
        crossterm::event::KeyCode::Char('q'),
        crossterm::event::KeyModifiers::CONTROL,
    );
    target.submission_keys.push(custom_queue);
    let pending = start_submit(&mut state, &mut target, lease_id, "dictated");
    let fence = pending.fence();
    mark_submission_pending(&mut state, &target, &[lease_id]);
    assert_eq!(
        state.finish_submission(pending, SubmissionDispatchOutcome::AcceptedButUncommitted),
        WireResult::Unknown
    );

    let default_queue = TuiEvent::Key(crossterm::event::KeyEvent::new(
        crossterm::event::KeyCode::Tab,
        crossterm::event::KeyModifiers::NONE,
    ));
    assert_eq!(
        state.prepare_tui_event(&default_queue, &target),
        TuiEventDisposition::BlockUnknownSubmission { disclose: true }
    );
    assert_eq!(
        state.prepare_tui_event(&TuiEvent::Key(custom_queue), &target),
        TuiEventDisposition::BlockUnknownSubmission { disclose: false }
    );
    let enter = TuiEvent::Key(crossterm::event::KeyEvent::new(
        crossterm::event::KeyCode::Enter,
        crossterm::event::KeyModifiers::NONE,
    ));
    assert!(matches!(
        state.prepare_tui_event(&enter, &target),
        TuiEventDisposition::BlockUnknownSubmission { disclose: false }
    ));
    assert!(matches!(
        prepare(
            &mut state,
            ComposerCommand::Submit {
                lease_id,
                expected: "dictated".to_string(),
            },
            &mut target,
            /*app_overlay_active*/ false,
        ),
        CommandExecution::Complete(WireResult::Unknown)
    ));

    let edit = TuiEvent::Key(crossterm::event::KeyEvent::new(
        crossterm::event::KeyCode::Char('x'),
        crossterm::event::KeyModifiers::NONE,
    ));
    assert_eq!(
        state.prepare_tui_event(&edit, &target),
        TuiEventDisposition::Allow
    );
    assert!(!state.fences.is_relinquished(fence));
    state.note_tui_event(&edit);
    target.user_insert(target.text.len(), "x");
    state.finish_tui_event(&target);
    assert!(state.fences.is_relinquished(fence));
    assert_eq!(
        state.prepare_tui_event(&enter, &target),
        TuiEventDisposition::Allow
    );
    assert_eq!(
        state.prepare_tui_event(&default_queue, &target),
        TuiEventDisposition::Allow
    );
    assert_eq!(
        state.prepare_tui_event(&TuiEvent::Key(custom_queue), &target),
        TuiEventDisposition::Allow
    );
    assert!(matches!(
        execute(
            &mut state,
            ComposerCommand::Verify {
                lease_id,
                expected: "dictated".to_string(),
            },
            &mut target,
            /*app_overlay_active*/ false,
        ),
        WireResult::Unknown
    ));
    assert!(matches!(
        prepare(
            &mut state,
            ComposerCommand::Submit {
                lease_id,
                expected: "dictated".to_string(),
            },
            &mut target,
            /*app_overlay_active*/ false,
        ),
        CommandExecution::Complete(WireResult::Unknown)
    ));
}

#[test]
fn unknown_submit_latch_blocks_native_mutation_and_survives_malformed_retries() {
    let (mut state, mut target, lease_id) = inserted_draft("dictated");
    let (native, range) = match &state.leases.get(lease_id).expect("lease").state {
        ExternalLeaseState::Draft { native } => (
            *native,
            target.leases.get(native).expect("native range").clone(),
        ),
        _ => panic!("new lease must own the draft"),
    };
    let pending = start_submit(&mut state, &mut target, lease_id, "dictated");
    let fence = pending.fence();
    assert_eq!(
        state.finish_submission(pending, SubmissionDispatchOutcome::Unknown),
        WireResult::Unknown
    );

    assert!(matches!(
        prepare(
            &mut state,
            ComposerCommand::Submit {
                lease_id,
                expected: "wrong".to_string(),
            },
            &mut target,
            /*app_overlay_active*/ false,
        ),
        CommandExecution::Complete(WireResult::Unknown)
    ));
    let enter = TuiEvent::Key(crossterm::event::KeyEvent::new(
        crossterm::event::KeyCode::Enter,
        crossterm::event::KeyModifiers::NONE,
    ));
    assert!(matches!(
        state.prepare_tui_event(&enter, &target),
        TuiEventDisposition::BlockUnknownSubmission { .. }
    ));

    let second_capture = capture(&mut state, &mut target);
    assert_eq!(
        execute(
            &mut state,
            ComposerCommand::Insert {
                capture_id: second_capture,
                text: " more".to_string(),
            },
            &mut target,
            /*app_overlay_active*/ false,
        ),
        WireResult::Unknown
    );
    assert_eq!(target.text, "dictated");
    assert!(state.captures.contains_key(second_capture));
    assert_eq!(
        execute(
            &mut state,
            ComposerCommand::Keep { lease_id },
            &mut target,
            /*app_overlay_active*/ false,
        ),
        WireResult::Unknown
    );
    assert!(matches!(
        prepare(
            &mut state,
            ComposerCommand::Replace {
                lease_id,
                expected: "dictated".to_string(),
                replacement: "corrected".to_string(),
            },
            &mut target,
            /*app_overlay_active*/ false,
        ),
        CommandExecution::Complete(WireResult::Unknown)
    ));
    assert_eq!(target.text, "dictated");

    let edit = TuiEvent::Key(crossterm::event::KeyEvent::new(
        crossterm::event::KeyCode::Char('x'),
        crossterm::event::KeyModifiers::NONE,
    ));
    state.note_tui_event(&edit);
    target.user_insert(target.text.len(), "x");
    state.finish_tui_event(&target);
    assert!(state.fences.is_relinquished(fence));
    assert!(matches!(
        prepare(
            &mut state,
            ComposerCommand::Replace {
                lease_id,
                expected: "dictated".to_string(),
                replacement: "corrected".to_string(),
            },
            &mut target,
            /*app_overlay_active*/ false,
        ),
        CommandExecution::Complete(WireResult::Unknown)
    ));
    let recovery_capture = capture(&mut state, &mut target);
    let recovery_lease = insert(&mut state, &mut target, recovery_capture, " new recording");
    assert_eq!(target.text, "dictatedx new recording");
    assert!(state.leases.contains_key(recovery_lease));

    let submission_id = new_id();
    state.note_submission_pending_by_native(
        "synthetic-thread",
        submission_id,
        &"dictated".to_string(),
        &vec![NativeSubmittedLease { native, range }],
    );
    state.note_submission_committed_id("synthetic-thread", submission_id);
    assert!(matches!(
        prepare(
            &mut state,
            ComposerCommand::Replace {
                lease_id,
                expected: "dictated".to_string(),
                replacement: "corrected".to_string(),
            },
            &mut target,
            /*app_overlay_active*/ false,
        ),
        CommandExecution::Correct(_)
    ));
}

#[test]
fn live_unknown_draft_does_not_block_an_independent_submitted_correction() {
    let (mut state, mut target, submitted_lease) = inserted_draft("first");
    mark_submitted(&mut state, &target, &[submitted_lease]);
    target.text.clear();
    target.cursor = 0;
    target.leases.clear();

    let unknown_capture = capture(&mut state, &mut target);
    let unknown_lease = insert(&mut state, &mut target, unknown_capture, "second");
    let pending = start_submit(&mut state, &mut target, unknown_lease, "second");
    assert_eq!(
        state.finish_submission(pending, SubmissionDispatchOutcome::Unknown),
        WireResult::Unknown
    );

    assert!(matches!(
        prepare(
            &mut state,
            ComposerCommand::Replace {
                lease_id: submitted_lease,
                expected: "first".to_string(),
                replacement: "corrected first".to_string(),
            },
            &mut target,
            /*app_overlay_active*/ false,
        ),
        CommandExecution::Correct(_)
    ));
}

#[test]
fn pending_submission_cannot_be_retired_before_commit_truth() {
    let (mut state, mut target, lease_id) = inserted_draft("dictated");
    let pending = start_submit(&mut state, &mut target, lease_id, "dictated");
    let submission_id = mark_submission_pending(&mut state, &target, &[lease_id]);
    assert_eq!(
        state.finish_submission(pending, SubmissionDispatchOutcome::Accepted),
        WireResult::SendAccepted
    );

    assert_eq!(
        execute(
            &mut state,
            ComposerCommand::Keep { lease_id },
            &mut target,
            /*app_overlay_active*/ false,
        ),
        WireResult::SubmissionPending
    );
    assert!(matches!(
        prepare(
            &mut state,
            ComposerCommand::Replace {
                lease_id,
                expected: "dictated".to_string(),
                replacement: "dictated".to_string(),
            },
            &mut target,
            /*app_overlay_active*/ false,
        ),
        CommandExecution::Complete(WireResult::SubmissionPending)
    ));
    assert!(state.leases.contains_key(lease_id));

    state.note_submission_committed_id("synthetic-thread", submission_id);
    assert_eq!(
        execute(
            &mut state,
            ComposerCommand::Keep { lease_id },
            &mut target,
            /*app_overlay_active*/ false,
        ),
        WireResult::Kept
    );
}

#[test]
fn manual_enter_before_socket_submit_is_unknown_until_commit_notification() {
    let (mut state, mut target, lease_id) = inserted_draft("dictated");
    let (native, range) = match &state.leases.get(lease_id).expect("lease").state {
        ExternalLeaseState::Draft { native } => (
            *native,
            target.leases.get(native).expect("native range").clone(),
        ),
        _ => panic!("new lease must own the draft"),
    };
    let enter = TuiEvent::Key(crossterm::event::KeyEvent::new(
        crossterm::event::KeyCode::Enter,
        crossterm::event::KeyModifiers::NONE,
    ));

    assert_eq!(
        state.prepare_tui_event(&enter, &target),
        TuiEventDisposition::Allow
    );
    state.note_tui_event(&enter);
    target.text.clear();
    target.cursor = 0;
    target.leases.clear();
    assert!(matches!(
        prepare(
            &mut state,
            ComposerCommand::Submit {
                lease_id,
                expected: "dictated".to_string(),
            },
            &mut target,
            /*app_overlay_active*/ false,
        ),
        CommandExecution::Complete(WireResult::Unknown)
    ));

    let submission_id = new_id();
    state.note_submission_pending_by_native(
        "synthetic-thread",
        submission_id,
        &"dictated".to_string(),
        &vec![NativeSubmittedLease { native, range }],
    );
    state.note_submission_committed_id("synthetic-thread", submission_id);
    assert!(matches!(
        execute(
            &mut state,
            ComposerCommand::Verify {
                lease_id,
                expected: "dictated".to_string(),
            },
            &mut target,
            /*app_overlay_active*/ false,
        ),
        WireResult::SubmittedIntact
    ));
    assert!(matches!(
        prepare(
            &mut state,
            ComposerCommand::Submit {
                lease_id,
                expected: "dictated".to_string(),
            },
            &mut target,
            /*app_overlay_active*/ false,
        ),
        CommandExecution::Complete(WireResult::Unknown)
    ));
}

#[test]
fn rejected_manual_enter_does_not_masquerade_as_an_in_flight_send() {
    let (mut state, mut target, lease_id) = inserted_draft("dictated");
    let enter = TuiEvent::Key(crossterm::event::KeyEvent::new(
        crossterm::event::KeyCode::Enter,
        crossterm::event::KeyModifiers::NONE,
    ));
    state.note_tui_event(&enter);

    assert!(matches!(
        prepare(
            &mut state,
            ComposerCommand::Submit {
                lease_id,
                expected: "dictated".to_string(),
            },
            &mut target,
            /*app_overlay_active*/ false,
        ),
        CommandExecution::Complete(WireResult::Error {
            code: ErrorCode::CaptureChanged,
            outcome: MutationOutcome::NotApplied,
        })
    ));
    assert_eq!(target.text, "dictated");
}

#[test]
fn unrelated_or_rejected_actions_do_not_relinquish_an_unknown_fence() {
    let (mut state, mut target, lease_id) = inserted_draft("dictated");
    let pending = start_submit(&mut state, &mut target, lease_id, "dictated");
    assert_eq!(
        state.finish_submission(pending, SubmissionDispatchOutcome::Unknown),
        WireResult::Unknown
    );

    assert!(matches!(
        execute(
            &mut state,
            ComposerCommand::Insert {
                capture_id: new_id(),
                text: "ignored".to_string(),
            },
            &mut target,
            /*app_overlay_active*/ false,
        ),
        WireResult::Error {
            code: ErrorCode::CaptureUnavailable,
            ..
        }
    ));
    assert!(matches!(
        execute(
            &mut state,
            ComposerCommand::Keep {
                lease_id: new_id(),
            },
            &mut target,
            /*app_overlay_active*/ false,
        ),
        WireResult::Error {
            code: ErrorCode::LeaseUnavailable,
            ..
        }
    ));
    assert!(matches!(
        execute(
            &mut state,
            ComposerCommand::Replace {
                lease_id,
                expected: "wrong".to_string(),
                replacement: "ignored".to_string(),
            },
            &mut target,
            /*app_overlay_active*/ false,
        ),
        WireResult::Unknown
    ));

    let shortcut = TuiEvent::Key(crossterm::event::KeyEvent::new(
        crossterm::event::KeyCode::Char('?'),
        crossterm::event::KeyModifiers::CONTROL,
    ));
    assert_eq!(
        state.prepare_tui_event(&shortcut, &target),
        TuiEventDisposition::Allow
    );
    state.note_tui_event(&shortcut);
    target.cursor = 0;
    state.finish_tui_event(&target);

    let enter = TuiEvent::Key(crossterm::event::KeyEvent::new(
        crossterm::event::KeyCode::Enter,
        crossterm::event::KeyModifiers::NONE,
    ));
    assert!(matches!(
        state.prepare_tui_event(&enter, &target),
        TuiEventDisposition::BlockUnknownSubmission { .. }
    ));
}

#[test]
fn another_thread_cannot_relinquish_an_unknown_draft_fence() {
    let (mut state, mut target, lease_id) = inserted_draft("dictated");
    let pending = start_submit(&mut state, &mut target, lease_id, "dictated");
    assert_eq!(
        state.finish_submission(pending, SubmissionDispatchOutcome::Unknown),
        WireResult::Unknown
    );

    target.thread_id = "other-thread".to_string();
    target.text = "other draft".to_string();
    target.cursor = target.text.len();
    let other_edit = TuiEvent::Key(crossterm::event::KeyEvent::new(
        crossterm::event::KeyCode::Char('x'),
        crossterm::event::KeyModifiers::NONE,
    ));
    assert_eq!(
        state.prepare_tui_event(&other_edit, &target),
        TuiEventDisposition::Allow
    );
    state.note_tui_event(&other_edit);
    state.finish_tui_event(&target);

    target.thread_id = "synthetic-thread".to_string();
    target.text = "dictated".to_string();
    target.cursor = target.text.len();
    let enter = TuiEvent::Key(crossterm::event::KeyEvent::new(
        crossterm::event::KeyCode::Enter,
        crossterm::event::KeyModifiers::NONE,
    ));
    assert!(matches!(
        state.prepare_tui_event(&enter, &target),
        TuiEventDisposition::BlockUnknownSubmission { .. }
    ));
}

#[test]
fn submit_admission_requires_the_exact_inserted_draft_witness() {
    let (mut state, mut target, lease_id) = inserted_draft("dictated");
    target.user_insert(0, "changed ");
    assert!(matches!(
        prepare(
            &mut state,
            ComposerCommand::Submit {
                lease_id,
                expected: "dictated".to_string(),
            },
            &mut target,
            /*app_overlay_active*/ false,
        ),
        CommandExecution::Complete(WireResult::Error {
            code: ErrorCode::CaptureChanged,
            outcome: MutationOutcome::NotApplied,
        })
    ));

    let (mut state, mut target, lease_id) = inserted_draft("dictated");
    target.cursor = 0;
    assert!(matches!(
        prepare(
            &mut state,
            ComposerCommand::Submit {
                lease_id,
                expected: "dictated".to_string(),
            },
            &mut target,
            /*app_overlay_active*/ false,
        ),
        CommandExecution::Complete(WireResult::Error {
            code: ErrorCode::CaptureChanged,
            ..
        })
    ));

    let (mut state, mut target, lease_id) = inserted_draft("dictated");
    state.note_tui_event(&TuiEvent::Paste("intervening".to_string()));
    assert!(matches!(
        prepare(
            &mut state,
            ComposerCommand::Submit {
                lease_id,
                expected: "dictated".to_string(),
            },
            &mut target,
            /*app_overlay_active*/ false,
        ),
        CommandExecution::Complete(WireResult::Error {
            code: ErrorCode::CaptureChanged,
            ..
        })
    ));

    let (mut state, mut target, lease_id) = inserted_draft("dictated");
    target.thread_id = "other-thread".to_string();
    assert!(matches!(
        prepare(
            &mut state,
            ComposerCommand::Submit {
                lease_id,
                expected: "dictated".to_string(),
            },
            &mut target,
            /*app_overlay_active*/ false,
        ),
        CommandExecution::Complete(WireResult::Unknown)
    ));

    let (mut state, mut target, lease_id) = inserted_draft("dictated");
    assert!(matches!(
        prepare(
            &mut state,
            ComposerCommand::Submit {
                lease_id,
                expected: "different".to_string(),
            },
            &mut target,
            /*app_overlay_active*/ false,
        ),
        CommandExecution::Complete(WireResult::Error {
            code: ErrorCode::ExpectedMismatch,
            outcome: MutationOutcome::NotApplied,
        })
    ));
    assert!(matches!(
        prepare(
            &mut state,
            ComposerCommand::Submit {
                lease_id,
                expected: "dictated".to_string(),
            },
            &mut target,
            /*app_overlay_active*/ false,
        ),
        CommandExecution::Complete(WireResult::Error {
            code: ErrorCode::ExpectedMismatch,
            outcome: MutationOutcome::NotApplied,
        })
    ));
}

#[test]
fn submission_stays_pending_until_matching_user_message_commit() {
    let mut state = ComposerControlState::new();
    let mut target = FakeTarget::new("");
    let capture_id = capture(&mut state, &mut target);
    let lease_id = insert(&mut state, &mut target, capture_id, "parakeat");
    let submission_id = mark_submission_pending(&mut state, &target, &[lease_id]);

    target.thread_id = "different-thread".to_string();
    target.text.clear();
    target.cursor = 0;
    target.leases.clear();
    assert!(matches!(
        execute(
            &mut state,
            ComposerCommand::Verify {
                lease_id,
                expected: "parakeat".to_string(),
            },
            &mut target,
            /*app_overlay_active*/ false,
        ),
        WireResult::SubmissionPending
    ));
    assert!(matches!(
        prepare(
            &mut state,
            ComposerCommand::Replace {
                lease_id,
                expected: "parakeat".to_string(),
                replacement: "Parakeet".to_string(),
            },
            &mut target,
            /*app_overlay_active*/ false,
        ),
        CommandExecution::Complete(WireResult::SubmissionPending)
    ));

    state.note_submission_committed_id("synthetic-thread", submission_id);
    assert!(matches!(
        execute(
            &mut state,
            ComposerCommand::Verify {
                lease_id,
                expected: "parakeat".to_string(),
            },
            &mut target,
            /*app_overlay_active*/ false,
        ),
        WireResult::SubmittedIntact
    ));
}

#[test]
fn rollback_invalidates_uncommitted_state_but_preserves_surviving_submission_leases() {
    let mut state = ComposerControlState::new();
    let mut target = FakeTarget::new("");
    let first_capture = capture(&mut state, &mut target);
    let first_lease = insert(&mut state, &mut target, first_capture, "first");
    let submission_id = mark_submission_pending(&mut state, &target, &[first_lease]);
    state.note_submission_abandoned_id("synthetic-thread", submission_id);
    assert!(matches!(
        state.leases.get(first_lease).map(|lease| &lease.state),
        Some(ExternalLeaseState::SubmissionAbandoned { .. })
    ));
    assert!(matches!(
        execute(
            &mut state,
            ComposerCommand::Verify {
                lease_id: first_lease,
                expected: "first".to_string(),
            },
            &mut target,
            /*app_overlay_active*/ false,
        ),
        WireResult::SubmissionAbandoned
    ));

    let second_capture = capture(&mut state, &mut target);
    let second_lease = insert(&mut state, &mut target, second_capture, " second");
    let second_submission_id = mark_submitted(&mut state, &target, &[second_lease]);
    let surviving = vec![second_submission_id];
    state.note_thread_rolled_back("synthetic-thread", &surviving);
    assert!(state.captures.is_empty());
    assert!(matches!(
        state.leases.get(second_lease).map(|lease| &lease.state),
        Some(ExternalLeaseState::SubmittedIntact { .. })
    ));

    let replacement = || ComposerCommand::Replace {
        lease_id: second_lease,
        expected: " second".to_string(),
        replacement: " Second".to_string(),
    };
    let CommandExecution::Correct(pending) = prepare(
        &mut state,
        replacement(),
        &mut target,
        /*app_overlay_active*/ false,
    ) else {
        panic!("surviving submitted lease should still dispatch its correction");
    };
    assert_eq!(pending.thread_id, "synthetic-thread");

    state.note_thread_rolled_back("synthetic-thread", &surviving);
    assert!(matches!(
        prepare(&mut state, replacement(), &mut target, /*app_overlay_active*/ false),
        CommandExecution::Correct(retry)
            if retry.thread_id == "synthetic-thread"
                && retry.correction_id == pending.correction_id
    ));
}

#[test]
fn rollback_survivor_keeps_the_local_clear_fence_until_disposition() {
    let (mut state, mut target, lease_id) = inserted_draft("retained");
    let pending = start_submit(&mut state, &mut target, lease_id, "retained");
    let submission_id = mark_submission_pending(&mut state, &target, &[lease_id]);
    assert_eq!(
        state.finish_submission(pending, SubmissionDispatchOutcome::AcceptedButUncommitted),
        WireResult::Unknown
    );

    state.note_thread_rolled_back("synthetic-thread", &vec![submission_id]);
    assert!(matches!(
        state.leases.get(lease_id).map(|lease| &lease.state),
        Some(ExternalLeaseState::SubmittedIntact { .. })
    ));

    let enter = TuiEvent::Key(crossterm::event::KeyEvent::new(
        crossterm::event::KeyCode::Enter,
        crossterm::event::KeyModifiers::NONE,
    ));
    assert!(matches!(
        state.prepare_tui_event(&enter, &target),
        TuiEventDisposition::BlockUnknownSubmission { .. }
    ));
    let insert_capture = capture(&mut state, &mut target);
    assert_eq!(
        execute(
            &mut state,
            ComposerCommand::Insert {
                capture_id: insert_capture,
                text: " duplicate".to_string(),
            },
            &mut target,
            /*app_overlay_active*/ false,
        ),
        WireResult::Unknown
    );
    assert_eq!(
        execute(
            &mut state,
            ComposerCommand::Keep { lease_id },
            &mut target,
            /*app_overlay_active*/ false,
        ),
        WireResult::Unknown
    );
    assert!(matches!(
        prepare(
            &mut state,
            ComposerCommand::Replace {
                lease_id,
                expected: "retained".to_string(),
                replacement: "corrected".to_string(),
            },
            &mut target,
            /*app_overlay_active*/ false,
        ),
        CommandExecution::Complete(WireResult::Unknown)
    ));
    assert_eq!(target.text, "retained");

    target.text.clear();
    target.cursor = 0;
    target.leases.clear();
    state.note_submission_committed_id("synthetic-thread", submission_id);
    let post_commit_capture = capture(&mut state, &mut target);
    let inserted_id = insert(&mut state, &mut target, post_commit_capture, "after commit");
    assert!(state.leases.contains_key(inserted_id));
    assert_eq!(target.text, "after commit");
}

#[test]
fn rollback_marks_a_removed_committed_submission_abandoned() {
    let mut state = ComposerControlState::new();
    let mut target = FakeTarget::new("");
    let capture_id = capture(&mut state, &mut target);
    let lease_id = insert(&mut state, &mut target, capture_id, "removed");
    mark_submitted(&mut state, &target, &[lease_id]);

    state.note_thread_rolled_back("synthetic-thread", &Vec::new());
    assert!(matches!(
        execute(
            &mut state,
            ComposerCommand::Verify {
                lease_id,
                expected: "removed".to_string(),
            },
            &mut target,
            /*app_overlay_active*/ false,
        ),
        WireResult::SubmissionAbandoned
    ));
    assert!(matches!(
        prepare(
            &mut state,
            ComposerCommand::Replace {
                lease_id,
                expected: "removed".to_string(),
                replacement: "replacement".to_string(),
            },
            &mut target,
            /*app_overlay_active*/ false,
        ),
        CommandExecution::Complete(WireResult::SubmissionAbandoned)
    ));
}

#[test]
fn submission_receipt_is_xml_safe_and_unambiguously_names_the_following_message() {
    let submission = NativeComposerSubmission::new(
        "synthetic-thread".to_string(),
        "owned",
        vec![SubmittedComposerLease {
            id: 1,
            range: 0..5,
        }],
    )
    .expect("submission");
    let (key, value) = submission.receipt_context();

    assert!(key.starts_with("koenig_transcription_receipt_"));
    assert!(!key.contains('/'));
    assert!(
        key.chars()
            .all(|character| character.is_ascii_alphanumeric() || character == '_')
    );
    assert!(value.contains(&submission.client_user_message_id()));
    assert!(value.contains("immediately following user message"));
}

#[test]
fn merged_submission_rebases_image_placeholder_edits_outside_owned_text() {
    let original = "[Image #9] parakeat";
    let owned_start = original.find("parakeat").expect("owned text");
    let submission = NativeComposerSubmission::new(
        "synthetic-thread".to_string(),
        original,
        vec![SubmittedComposerLease {
            id: 1,
            range: owned_start..owned_start + "parakeat".len(),
        }],
    )
    .expect("submission");
    let remapped = "[Image #10] parakeat";

    let merged =
        NativeComposerSubmission::merge_parts(vec![(remapped.to_string(), Some(submission))], remapped)
            .expect("placeholder edit outside the lease should preserve provenance");
    let rebased = &merged.leases[0].range;
    assert_eq!(merged.submitted_text.as_str(), remapped);
    assert_eq!(merged.submitted_text.get(rebased.clone()), Some("parakeat"));
    assert_eq!(rebased.start, owned_start + 1);

    let placeholder_submission = NativeComposerSubmission::new(
        "synthetic-thread".to_string(),
        original,
        vec![SubmittedComposerLease {
            id: 2,
            range: 0.."[Image #9]".len(),
        }],
    )
    .expect("placeholder submission");
    assert!(
        NativeComposerSubmission::merge_parts(
            vec![(remapped.to_string(), Some(placeholder_submission))],
            remapped,
        )
        .is_none(),
        "normalization intersecting owned text must fail closed"
    );
}

#[test]
fn cleared_or_edited_draft_without_acceptance_is_not_submitted() {
    let mut state = ComposerControlState::new();
    let mut target = FakeTarget::new("");
    let capture_id = capture(&mut state, &mut target);
    let lease_id = insert(&mut state, &mut target, capture_id, "transcribed");

    target.text.clear();
    target.cursor = 0;
    target.leases.clear();
    assert!(matches!(
        execute(
            &mut state,
            ComposerCommand::Verify {
                lease_id,
                expected: "transcribed".to_string(),
            },
            &mut target,
            /*app_overlay_active*/ false,
        ),
        WireResult::Error {
            code: ErrorCode::LeaseUnavailable,
            outcome: MutationOutcome::NotApplied,
        }
    ));
}

#[test]
fn submitted_replace_is_same_thread_application_correction_with_ack_semantics() {
    let mut state = ComposerControlState::new();
    let mut target = FakeTarget::new("");
    let capture_id = capture(&mut state, &mut target);
    let lease_id = insert(&mut state, &mut target, capture_id, "parakeat result");
    let submission_id = mark_submitted(&mut state, &target, &[lease_id]);
    target.text.clear();
    target.cursor = 0;
    target.leases.clear();

    let correction = pending_correction(
        &mut state,
        &mut target,
        lease_id,
        "parakeat result",
        "Parakeet result",
    );
    assert_eq!(correction.thread_id, "synthetic-thread");
    assert_eq!(version_of(correction.correction_id), 4);
    assert!(
        correction
            .payload
            .contains(&format!("koenig-composer-{}", uuid::Uuid::from_u128(submission_id)))
    );
    assert!(
        correction
            .payload
            .contains("application context, not a user message")
    );

    let reply = state.finish_correction(
            PreparedCorrection {
            lease_id: correction.lease_id,
            thread_id: correction.thread_id,
            correction_id: correction.correction_id,
            expected_client_user_message_id: correction.expected_client_user_message_id,
            payload: correction.payload,
                origin: CorrectionOrigin::Composer,
            },
        CorrectionDispatchOutcome::Accepted,
    );
    assert!(matches!(
        reply,
        WireResult::CorrectionQueued
    ));
    assert!(matches!(
        execute(
            &mut state,
            ComposerCommand::Verify {
                lease_id,
                expected: "parakeat result".to_string(),
            },
            &mut target,
            /*app_overlay_active*/ false,
        ),
        WireResult::Error {
            code: ErrorCode::LeaseUnavailable,
            ..
        }
    ));
}

#[test]
fn submitted_correction_retries_definite_rejection_or_ambiguity_without_identity_loss() {
    for (outcome, remains_submitted) in [
        (CorrectionDispatchOutcome::NotApplied, true),
        (CorrectionDispatchOutcome::Unknown, false),
    ] {
        let mut state = ComposerControlState::new();
        let mut target = FakeTarget::new("");
        let capture_id = capture(&mut state, &mut target);
        let lease_id = insert(&mut state, &mut target, capture_id, "parakeat");
        mark_submitted(&mut state, &target, &[lease_id]);
        target.thread_id = "different-thread".to_string();
        target.text.clear();
        target.cursor = 0;
        target.leases.clear();
        let correction =
            pending_correction(&mut state, &mut target, lease_id, "parakeat", "Parakeet");
        let original_correction_id = correction.correction_id;
        let original_payload = correction.payload.clone();
        let reply = state.finish_correction(
            PreparedCorrection {
                lease_id: correction.lease_id,
                thread_id: correction.thread_id,
                correction_id: correction.correction_id,
                expected_client_user_message_id: correction.expected_client_user_message_id,
                payload: correction.payload,
                origin: CorrectionOrigin::Composer,
            },
            outcome,
        );
        if remains_submitted {
            assert!(matches!(
                reply,
                WireResult::Error {
                    code: ErrorCode::CorrectionUnavailable,
                    outcome: MutationOutcome::NotApplied,
                }
            ));
        } else {
            assert!(matches!(reply, WireResult::CorrectionPending));
        }
        let verify = execute(
            &mut state,
            ComposerCommand::Verify {
                lease_id,
                expected: "parakeat".to_string(),
            },
            &mut target,
            /*app_overlay_active*/ false,
        );
        if remains_submitted {
            assert!(matches!(verify, WireResult::SubmittedIntact));
        } else {
            assert!(matches!(
                verify,
                WireResult::Error {
                    code: ErrorCode::LeaseUnavailable,
                    ..
                }
            ));
            let retry =
                pending_correction(&mut state, &mut target, lease_id, "parakeat", "Parakeet");
            assert_eq!(retry.correction_id, original_correction_id);
            assert_eq!(retry.payload, original_payload);
            assert!(matches!(
                prepare(
                    &mut state,
                    ComposerCommand::Replace {
                        lease_id,
                        expected: "parakeat".to_string(),
                        replacement: "different correction".to_string(),
                    },
                    &mut target,
                    /*app_overlay_active*/ false,
                ),
                CommandExecution::Complete(WireResult::Error {
                    code: ErrorCode::LeaseUnavailable,
                    outcome: MutationOutcome::NotApplied,
                })
            ));
        }
    }
}

#[test]
fn stale_correction_completion_does_not_mutate_a_newer_generation() {
    for stale_outcome in [
        CorrectionDispatchOutcome::Accepted,
        CorrectionDispatchOutcome::NotApplied,
    ] {
        let mut state = ComposerControlState::new();
        let mut target = FakeTarget::new("");
        let capture_id = capture(&mut state, &mut target);
        let lease_id = insert(&mut state, &mut target, capture_id, "parakeat");
        mark_submitted(&mut state, &target, &[lease_id]);
        target.text.clear();
        target.cursor = 0;
        target.leases.clear();

        let first = pending_correction(&mut state, &mut target, lease_id, "parakeat", "Parakeet");
        let first_thread_id = first.thread_id.clone();
        let first_correction_id = first.correction_id;
        let first_expected_client_user_message_id = first.expected_client_user_message_id.clone();
        let first_payload = first.payload.clone();
        state.finish_correction(
            PreparedCorrection {
                lease_id,
                thread_id: first.thread_id,
                correction_id: first.correction_id,
                expected_client_user_message_id: first.expected_client_user_message_id,
                payload: first.payload,
                origin: CorrectionOrigin::Composer,
            },
            CorrectionDispatchOutcome::NotApplied,
        );
    
        let second =
            pending_correction(&mut state, &mut target, lease_id, "parakeat", "Parakeet v2");
        assert_ne!(second.correction_id, first_correction_id);
        let second_correction_id = second.correction_id;
        let second_payload = second.payload.clone();

        state.finish_correction(
            PreparedCorrection {
                lease_id,
                thread_id: first_thread_id,
                correction_id: first_correction_id,
                expected_client_user_message_id: first_expected_client_user_message_id,
                payload: first_payload,
                origin: CorrectionOrigin::Composer,
            },
            stale_outcome,
        );
    
        let retry =
            pending_correction(&mut state, &mut target, lease_id, "parakeat", "Parakeet v2");
        assert_eq!(retry.correction_id, second_correction_id);
        assert_eq!(retry.payload, second_payload);
    }
}

#[test]
fn late_acceptance_removes_same_generation_after_definite_rejection() {
    let mut state = ComposerControlState::new();
    let mut target = FakeTarget::new("");
    let capture_id = capture(&mut state, &mut target);
    let lease_id = insert(&mut state, &mut target, capture_id, "parakeat");
    mark_submitted(&mut state, &target, &[lease_id]);
    target.text.clear();
    target.cursor = 0;
    target.leases.clear();

    let correction = pending_correction(&mut state, &mut target, lease_id, "parakeat", "Parakeet");
    let thread_id = correction.thread_id.clone();
    let correction_id = correction.correction_id;
    let expected_client_user_message_id = correction.expected_client_user_message_id.clone();
    let payload = correction.payload.clone();
    state.finish_correction(
            PreparedCorrection {
            lease_id,
            thread_id: correction.thread_id,
            correction_id,
            expected_client_user_message_id: correction.expected_client_user_message_id,
            payload: correction.payload,
                origin: CorrectionOrigin::Composer,
            },
        CorrectionDispatchOutcome::NotApplied,
    );

    let accepted_reply = state.finish_correction(
            PreparedCorrection {
            lease_id,
            thread_id,
            correction_id,
            expected_client_user_message_id,
            payload,
                origin: CorrectionOrigin::Composer,
            },
        CorrectionDispatchOutcome::Accepted,
    );
    assert!(matches!(
        accepted_reply,
        WireResult::CorrectionQueued
    ));
    assert!(matches!(
        prepare(
            &mut state,
            ComposerCommand::Replace {
                lease_id,
                expected: "parakeat".to_string(),
                replacement: "Parakeet v2".to_string(),
            },
            &mut target,
            /*app_overlay_active*/ false,
        ),
        CommandExecution::Complete(WireResult::Error {
            code: ErrorCode::LeaseUnavailable,
            outcome: MutationOutcome::NotApplied,
        })
    ));
}

#[test]
fn submitted_replace_routes_by_origin_after_display_thread_switch() {
    let mut state = ComposerControlState::new();
    let mut target = FakeTarget::new("");
    let capture_id = capture(&mut state, &mut target);
    let lease_id = insert(&mut state, &mut target, capture_id, "parakeat");
    mark_submitted(&mut state, &target, &[lease_id]);
    target.thread_id = "different-thread".to_string();
    target.text.clear();
    target.cursor = 0;

    let CommandExecution::Correct(correction) = prepare(
        &mut state,
        ComposerCommand::Replace {
            lease_id,
            expected: "parakeat".to_string(),
            replacement: "Parakeet".to_string(),
        },
        &mut target,
        /*app_overlay_active*/ false,
    ) else {
        panic!("submitted correction should route by its stored origin");
    };
    assert_eq!(correction.thread_id, "synthetic-thread");
    assert!(matches!(
        prepare(
            &mut state,
            ComposerCommand::Replace {
                lease_id,
                expected: "parakeat".to_string(),
                replacement: "Parakeet".to_string(),
            },
            &mut target,
            /*app_overlay_active*/ false,
        ),
        CommandExecution::Correct(retry)
            if retry.thread_id == "synthetic-thread"
                && retry.correction_id == correction.correction_id
    ));
}

#[test]
fn submitted_locator_is_global_and_never_claims_unowned_prefix_suffix_or_other_lease() {
    let mut state = ComposerControlState::new();
    let mut target = FakeTarget::new("prefix parakeat | ");
    let first_capture = capture(&mut state, &mut target);
    let first_lease = insert(&mut state, &mut target, first_capture, "parakeat");
    target.user_insert(target.text.len(), " | middle parakeat | ");
    let second_capture = capture(&mut state, &mut target);
    let second_lease = insert(&mut state, &mut target, second_capture, "parakeat");
    target.user_insert(target.text.len(), " | suffix");

    let submitted_text = target.text.clone();
    let first_native = match stored(&state, first_lease).state {
        ExternalLeaseState::Draft { native } => native,
        _ => unreachable!(),
    };
    let second_native = match stored(&state, second_lease).state {
        ExternalLeaseState::Draft { native } => native,
        _ => unreachable!(),
    };
    let first_range = target.leases[&first_native].clone();
    let second_range = target.leases[&second_native].clone();
    mark_submitted(&mut state, &target, &[first_lease, second_lease]);
    target.text.clear();
    target.cursor = 0;
    target.leases.clear();

    let first = pending_correction(&mut state, &mut target, first_lease, "parakeat", "Parakeet");
    let second = pending_correction(
        &mut state,
        &mut target,
        second_lease,
        "parakeat",
        "Parakeet",
    );
    assert!(first.payload.contains(&format!(
        "Koenig-owned submitted-message bytes {}..{}",
        first_range.start, first_range.end
    )));
    assert!(first.payload.contains(&format!(
        "Hunk 1: old bytes {}..{}",
        first_range.start, first_range.end
    )));
    assert!(second.payload.contains(&format!(
        "Koenig-owned submitted-message bytes {}..{}",
        second_range.start, second_range.end
    )));
    assert!(second.payload.contains("occurrence 4"));
    assert!(!first.payload.contains("prefix parakeat"));
    assert!(!first.payload.contains("| suffix"));
    assert_eq!(
        submitted_text.get(first_range),
        Some("parakeat"),
        "first locator must resolve only the first Koenig-owned lease"
    );
    assert_eq!(
        submitted_text.get(second_range),
        Some("parakeat"),
        "second locator must resolve only the second Koenig-owned lease"
    );
}

#[test]
fn correction_hunks_are_compact_unique_and_deterministically_located() {
    let repeated_prefix = (0..14)
        .map(|index| format!("before{index}"))
        .collect::<Vec<_>>()
        .join(" ");
    let repeated_suffix = (0..14)
        .map(|index| format!("after{index}"))
        .collect::<Vec<_>>()
        .join(" ");
    let segment = format!("{repeated_prefix} parakeat {repeated_suffix}");
    let expected_repeated = format!("{segment} | {segment} | {segment}");
    let second_error_start = expected_repeated
        .match_indices("parakeat")
        .nth(1)
        .map(|(position, _)| position)
        .expect("second repeated error");
    let mut replacement_repeated = expected_repeated.clone();
    replacement_repeated.replace_range(
        second_error_start..second_error_start + "parakeat".len(),
        "Parakeet",
    );
    let repeated_context = correction_context(
        new_id(),
        &expected_repeated,
        &(0..expected_repeated.len()),
        &expected_repeated,
        &replacement_repeated,
    )
    .expect("bounded repeated correction context");
    assert!(
        repeated_context.contains("occurrence 2"),
        "{repeated_context}"
    );

    let filler = (0..80)
        .map(|index| format!("filler{index}"))
        .collect::<Vec<_>>()
        .join(" ");
    let expected = format!("start parakeat {filler} second eror end");
    let replacement = format!("start Parakeet {filler} second error end");
    let first = correction_context(
        new_id(),
        &expected,
        &(0..expected.len()),
        &expected,
        &replacement,
    )
    .expect("bounded multi-hunk correction context");
    let second = correction_context(
        new_id(),
        &expected,
        &(0..expected.len()),
        &expected,
        &replacement,
    )
    .expect("bounded multi-hunk correction context");
    assert!(first.contains("Hunk 1:"));
    assert!(first.contains("Hunk 2:"));
    assert!(!first.contains(&filler));
    assert_ne!(
        first.lines().find(|line| line.contains("koenig-composer-")),
        second
            .lines()
            .find(|line| line.contains("koenig-composer-"))
    );
}

#[test]
fn long_correction_context_uses_only_the_changed_core_or_fails_closed() {
    let shared_prefix = "unchanged context ".repeat(30_000);
    let expected = format!("{shared_prefix}late parakeat tail");
    let replacement = format!("{shared_prefix}late Parakeet tail");
    let context = correction_context(
        new_id(),
        &expected,
        &(0..expected.len()),
        &expected,
        &replacement,
    )
    .expect("a tiny correction in a long submission remains representable");

    assert!(context.len() < 4_096, "context was {} bytes", context.len());
    assert!(context.contains("parakeat"));
    assert!(context.contains("Parakeet"));
    assert!(!context.contains(&"unchanged context ".repeat(100)));

    let oversized_old = "a".repeat(20_000);
    let oversized_new = "b".repeat(20_000);
    assert!(
        correction_context(
            new_id(),
            &oversized_old,
            &(0..oversized_old.len()),
            &oversized_old,
            &oversized_new,
        )
        .is_none(),
        "an unbounded changed core must be rejected instead of reproduced"
    );
}

#[test]
fn many_small_hunks_fail_before_the_real_additional_context_budget_would_truncate() {
    let spacer = (0..16)
        .map(|index| format!("stable{index}"))
        .collect::<Vec<_>>()
        .join(" ");
    let expected = (0..80)
        .map(|index| format!("bad{index} {spacer}"))
        .collect::<Vec<_>>()
        .join(" ");
    let replacement = (0..80)
        .map(|index| format!("good{index} {spacer}"))
        .collect::<Vec<_>>()
        .join(" ");

    assert!(
        correction_context(
            new_id(),
            &expected,
            &(0..expected.len()),
            &expected,
            &replacement,
        )
        .is_none(),
        "many bounded hunks must fail closed before AdditionalContext silently truncates at the \
         shared token boundary"
    );
}

#[test]
fn verify_mismatch_is_retryable_but_replace_mismatch_is_terminal() {
    let mut state = ComposerControlState::new();
    let mut target = FakeTarget::new("draft");
    let capture_id = capture(&mut state, &mut target);
    let lease_id = insert(&mut state, &mut target, capture_id, " fast");
    let before = target.text.clone();

    assert!(matches!(
        execute(
            &mut state,
            ComposerCommand::Verify {
                lease_id,
                expected: "wrong".to_string(),
            },
            &mut target,
            /*app_overlay_active*/ false,
        ),
        WireResult::Error {
            code: ErrorCode::ExpectedMismatch,
            outcome: MutationOutcome::NotApplied,
        }
    ));
    assert_eq!(target.text, before);
    assert!(matches!(
        execute(
            &mut state,
            ComposerCommand::Verify {
                lease_id,
                expected: " fast".to_string(),
            },
            &mut target,
            /*app_overlay_active*/ false,
        ),
        WireResult::Verified
    ));

    assert!(matches!(
        execute(
            &mut state,
            ComposerCommand::Replace {
                lease_id,
                expected: "wrong".to_string(),
                replacement: "final".to_string(),
            },
            &mut target,
            /*app_overlay_active*/ false,
        ),
        WireResult::Error {
            code: ErrorCode::ExpectedMismatch,
            outcome: MutationOutcome::NotApplied,
        }
    ));
    assert_eq!(target.text, before);
    assert!(matches!(
        execute(
            &mut state,
            ComposerCommand::Verify {
                lease_id,
                expected: " fast".to_string(),
            },
            &mut target,
            /*app_overlay_active*/ false,
        ),
        WireResult::Error {
            code: ErrorCode::LeaseUnavailable,
            ..
        }
    ));
    assert!(target.leases.is_empty());
}

#[test]
fn unavailable_surfaces_and_expired_ui_requests_do_not_mutate() {
    let mut state = ComposerControlState::new();
    let mut target = FakeTarget::new("draft");
    assert!(matches!(
        execute(
            &mut state,
            ComposerCommand::Capture,
            &mut target,
            /*app_overlay_active*/ true,
        ),
        WireResult::Error {
            code: ErrorCode::ComposerUnavailable,
            ..
        }
    ));

    let outcome = state.handle_ui_request(
        ComposerControlRequest {
            command: ComposerCommand::Capture,
            expired: true,
        },
        &mut target,
        /*app_overlay_active*/ false,
    );
    assert!(matches!(
        outcome,
        RequestOutcome::Reply(WireResult::Error {
            code: ErrorCode::UiTimeout,
            outcome: MutationOutcome::NotApplied,
        })
    ));
    assert_eq!(target.text, "draft");
}

#[test]
fn insert_submit_and_replace_can_have_unknown_ui_timeout_effects() {
    let capture = ComposerCommand::Capture;
    let insert = ComposerCommand::Insert {
        capture_id: new_id(),
        text: "fast".to_string(),
    };
    let verify = ComposerCommand::Verify {
        lease_id: new_id(),
        expected: "fast".to_string(),
    };
    let submit = ComposerCommand::Submit {
        lease_id: new_id(),
        expected: "fast".to_string(),
    };
    let keep = ComposerCommand::Keep {
        lease_id: new_id(),
    };
    let replace = ComposerCommand::Replace {
        lease_id: new_id(),
        expected: "fast".to_string(),
        replacement: "final".to_string(),
    };

    assert!(!capture.may_have_effect());
    assert!(insert.may_have_effect());
    assert!(!verify.may_have_effect());
    assert!(submit.may_have_effect());
    assert!(!keep.may_have_effect());
    assert!(replace.may_have_effect());
}

#[test]
fn wire_validation_is_strict_and_accepts_literal_multiline_composer_text() {
    let instance_id = new_id();
    let capture_id = new_id();
    let lease_id = new_id();
    let request = WireRequest::Insert {
        protocol_version: PROTOCOL_VERSION,
        instance_id,
        capture_id,
        text: "line\nsubmit".to_string(),
    };
    assert!(matches!(
        request.into_command(instance_id),
        Ok(ComposerCommand::Insert { text, .. }) if text == "line\nsubmit"
    ));

    let request = WireRequest::Submit {
        protocol_version: PROTOCOL_VERSION,
        instance_id,
        lease_id,
        expected: "line\nsubmit".to_string(),
    };
    assert!(matches!(
        request.into_command(instance_id),
        Ok(ComposerCommand::Submit {
            lease_id: parsed_lease,
            expected,
        }) if parsed_lease == lease_id && expected == "line\nsubmit"
    ));

    let wrong_version = WireRequest::Capture {
        protocol_version: 9,
        instance_id,
    };
    assert!(matches!(
        wrong_version.into_command(instance_id),
        Err(ErrorCode::UnsupportedVersion)
    ));
}

#[test]
fn iterm_identity_maps_to_bounded_instance_socket_path() {
    let guid = uuid::Uuid::new_v4();
    let instance_id = uuid::Uuid::new_v4();
    let parsed =
        session_guid_from_value(&format!("w0t0p0:{guid}")).expect("iTerm session GUID suffix");
    assert_eq!(parsed, guid.to_string());
    let path = format!(
        "/tmp/codex-cc/{parsed}/{}",
        socket_file_name(u32::MAX, instance_id.as_u128())
    );
    assert_eq!(
        path,
        format!("/tmp/codex-cc/{guid}/{}-{instance_id}.sock", u32::MAX)
    );
    assert!(path.len() <= 103);
}

#[test]
fn a_message_is_handed_over_once_whatever_follows() {
    let (mut state, mut target, lease_id) = inserted_draft("dictated");
    let pending = start_submit(&mut state, &mut target, lease_id, "dictated");
    let refused = state.finish_submission(
        pending,
        SubmissionDispatchOutcome::NotApplied(ErrorCode::SubmissionUnavailable),
    );
    assert_eq!(refused, WireResult::not_applied(ErrorCode::SubmissionUnavailable));
    state.note_user_chronology_change();
    state.finish_tui_event(&target);
    for text in ["dictated", "another text"] {
        let again = prepare(
            &mut state,
            ComposerCommand::Submit {
                lease_id,
                expected: text.to_string(),
            },
            &mut target,
            /*app_overlay_active*/ false,
        );
        assert!(matches!(again, CommandExecution::Complete(result) if result == refused));
    }
}

#[test]
fn keeping_a_draft_twice_is_keeping_it_once() {
    let (mut state, mut target, lease_id) = inserted_draft("dictated");
    for _ in 0..2 {
        assert_eq!(
            execute(
                &mut state,
                ComposerCommand::Keep { lease_id },
                &mut target,
                /*app_overlay_active*/ false,
            ),
            WireResult::Kept
        );
        assert!(!state.leases.contains_key(lease_id));
        assert_eq!(state.kept_leases, vec![lease_id]);
    }
    assert_eq!(target.text, "dictated");
    assert!(target.leases.is_empty());
}

#[test]
fn an_unknown_outcome_is_acknowledged_and_the_text_stays() {
    let (mut state, mut target, lease_id) = inserted_draft("dictated");
    let acknowledge = || ComposerCommand::AcknowledgeUnknown { lease_id };
    assert_eq!(
        execute(&mut state, acknowledge(), &mut target, false),
        WireResult::not_applied(ErrorCode::LeaseUnavailable)
    );
    let pending = start_submit(&mut state, &mut target, lease_id, "dictated");
    let fence = pending.fence();
    assert_eq!(
        execute(&mut state, acknowledge(), &mut target, false),
        WireResult::Unknown
    );
    state.finish_submission(pending, SubmissionDispatchOutcome::Unknown);
    for _ in 0..2 {
        assert_eq!(
            execute(&mut state, acknowledge(), &mut target, false),
            WireResult::UnknownAcknowledged
        );
    }
    assert!(state.fences.is_relinquished(fence));
    assert_eq!(target.text, "dictated");
    assert!(target.leases.is_empty());
}

#[test]
fn the_oldest_capture_makes_room() {
    let mut state = ComposerControlState::new();
    let mut target = FakeTarget::new("draft");
    let oldest = capture(&mut state, &mut target);
    for _ in 0..composer_control::control::MAX_CAPTURE_COUNT {
        capture(&mut state, &mut target);
    }
    assert_eq!(state.captures.len(), 64);
    assert_eq!(
        execute(
            &mut state,
            ComposerCommand::Insert {
                capture_id: oldest,
                text: " more".to_string(),
            },
            &mut target,
            /*app_overlay_active*/ false,
        ),
        WireResult::not_applied(ErrorCode::CaptureUnavailable)
    );
}

#[test]
fn refusals_of_the_composer_are_reported() {
    let mut state = ComposerControlState::new();
    let mut target = FakeTarget::new("draft");
    let capture_id = capture(&mut state, &mut target);
    assert_eq!(
        execute(
            &mut state,
            ComposerCommand::Insert {
                capture_id,
                text: String::new(),
            },
            &mut target,
            /*app_overlay_active*/ false,
        ),
        WireResult::not_applied(ErrorCode::InvalidText)
    );
    let capture_id = capture(&mut state, &mut target);
    let lease_id = insert(&mut state, &mut target, capture_id, " fast");
    target.cursor = "draft f".len();
    assert_eq!(
        execute(
            &mut state,
            ComposerCommand::Replace {
                lease_id,
                expected: " fast".to_string(),
                replacement: " slow".to_string(),
            },
            &mut target,
            /*app_overlay_active*/ false,
        ),
        WireResult::not_applied(ErrorCode::CursorConflict)
    );
    assert_eq!(target.text, "draft fast");
}

#[test]
fn an_empty_composer_is_reserved_and_another_is_captured() {
    let mut state = ComposerControlState::new();
    let mut target = FakeTarget::new("");
    let unavailable = WireResult::not_applied(ErrorCode::SubmissionUnavailable);
    assert_eq!(
        execute(
            &mut state,
            ComposerCommand::AcquireSend,
            &mut target,
            false
        ),
        unavailable
    );
    target.direct_send_available = true;
    let lease_id = match execute(
        &mut state,
        ComposerCommand::AcquireSend,
        &mut target,
        false,
    ) {
        WireResult::Reserved { lease_id } => lease_id,
        _ => panic!("an empty composer can be reserved"),
    };
    target.text = "draft".to_string();
    target.cursor = 5;
    assert_eq!(
        execute(
            &mut state,
            ComposerCommand::AcquireSend,
            &mut target,
            false
        ),
        unavailable
    );
    target.plain_draft_send_available = true;
    assert!(matches!(
        execute(
            &mut state,
            ComposerCommand::AcquireSend,
            &mut target,
            false
        ),
        WireResult::Captured { .. }
    ));
    let submission = match prepare(
        &mut state,
        ComposerCommand::Submit {
            lease_id,
            expected: "spoken".to_string(),
        },
        &mut target,
        false,
    ) {
        CommandExecution::SubmitDirect(submission) => submission,
        _ => panic!("a reservation is sent without the composer"),
    };
    assert_eq!(submission.submission.submitted_text(), "spoken");
    assert_eq!(target.text, "draft");
    assert_eq!(
        state.finish_direct_submission(submission, SubmissionDispatchOutcome::Accepted),
        WireResult::SendAccepted
    );
    assert_eq!(
        execute(
            &mut state,
            ComposerCommand::Keep { lease_id },
            &mut target,
            false
        ),
        WireResult::Kept
    );
}

#[test]
fn a_frozen_acquisition_is_that_of_the_composer() {
    let state = ComposerControlState::new();
    let mut target = FakeTarget::new("draft");
    target.plain_draft_send_available = true;
    let frozen = state.freeze_acquisition(&target, false, true);
    assert!(frozen
        .snapshot
        .is_some_and(|snapshot| snapshot.text == "draft" && snapshot.cursor == 5));
    assert!(!frozen.direct_send_available);
    assert!(frozen.plain_draft_send_available);
    assert!(frozen.nonempty_capture_allowed);
    assert!(state.freeze_acquisition(&target, true, true).snapshot.is_none());
}

#[test]
fn a_measured_correction_goes_on_or_is_dropped() {
    let (mut state, mut target, lease_id) = inserted_draft("parakeat");
    mark_submitted(&mut state, &target, &[lease_id]);
    let mut propose = |state: &mut ComposerControlState| {
        match state.handle_ui_request(
            ComposerControlRequest {
                command: ComposerCommand::Replace {
                    lease_id,
                    expected: "parakeat".to_string(),
                    replacement: "Parakeet".to_string(),
                },
                expired: false,
            },
            &mut target,
            false,
        ) {
            RequestOutcome::Measure(proposal) => proposal,
            _ => panic!("a new correction is measured first"),
        }
    };
    let proposal = propose(&mut state);
    assert!(matches!(
        state.handle_measured_correction(proposal, true),
        RequestOutcome::Reply(result)
            if result == WireResult::not_applied(ErrorCode::CorrectionUnavailable)
    ));
    let proposal = propose(&mut state);
    let stale = propose(&mut state);
    assert!(matches!(
        state.handle_measured_correction(proposal, false),
        RequestOutcome::Pending(PendingComposerControlAction::Correction(_))
    ));
    assert!(matches!(
        state.handle_measured_correction(stale, false),
        RequestOutcome::Reply(result)
            if result == WireResult::not_applied(ErrorCode::LeaseUnavailable)
    ));
}
