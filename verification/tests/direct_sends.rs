use composer_control::control::{
    ComposerControlRequest, ComposerControlState, FrozenComposerAcquisition,
};
use composer_control::direct_send::{
    DirectPreparedSubmission, DirectSendReservations, DirectSendState,
    MAX_DIRECT_SEND_RESERVATIONS,
};
use composer_control::ids::Uuid;
use composer_control::receipt::{
    CorrectionDispatchOutcome, PreparedCorrection, ReplaceOutcome, SubmissionDispatchOutcome,
};
use composer_control::target::ComposerSnapshot;
use composer_control::wire::{ComposerCommand, ErrorCode, WireResult};

const THREAD: &str = "thread";

fn shown(thread_id: &str) -> Option<String> {
    Some(thread_id.to_string())
}

fn reserve(table: &mut DirectSendReservations) -> Uuid {
    match table.acquire(THREAD.to_string(), 1) {
        WireResult::Reserved { lease_id } => lease_id,
        _ => panic!("there is room for a reservation"),
    }
}

fn dispatch(
    table: &mut DirectSendReservations,
    lease_id: Uuid,
    text: &str,
) -> DirectPreparedSubmission {
    match table.prepare_submission(lease_id, text.to_string(), &shown(THREAD), 1) {
        Ok(prepared) => prepared,
        Err(_) => panic!("a fresh reservation is dispatched"),
    }
}

fn refusal(prepared: Result<DirectPreparedSubmission, WireResult>) -> WireResult {
    match prepared {
        Ok(_) => panic!("nothing may be dispatched"),
        Err(result) => result,
    }
}

fn sent(table: &mut DirectSendReservations, text: &str) -> (Uuid, DirectPreparedSubmission) {
    let lease_id = reserve(table);
    let prepared = dispatch(table, lease_id, text);
    let result = table.finish_submission(
        lease_id,
        prepared.submission.submission_id(),
        SubmissionDispatchOutcome::Accepted,
    );
    assert_eq!(result, WireResult::SendAccepted);
    table.note_submission_committed(&prepared.submission);
    (lease_id, prepared)
}

fn correct(
    table: &mut DirectSendReservations,
    lease_id: Uuid,
    expected: &str,
    replacement: &str,
) -> PreparedCorrection {
    let outcome = match table.replace(lease_id, expected.to_string(), replacement.to_string()) {
        ReplaceOutcome::Propose(proposal) => table.admit_correction(proposal, false),
        outcome => outcome,
    };
    match outcome {
        ReplaceOutcome::Correct(correction) => correction,
        _ => panic!("a sent message can be corrected"),
    }
}

#[test]
fn a_reservation_sends_exactly_its_text_once() {
    let mut table = DirectSendReservations::new();
    let lease_id = reserve(&mut table);
    assert_eq!(
        table.verify(lease_id, "hello", &shown(THREAD), 1),
        WireResult::Verified
    );
    let prepared = dispatch(&mut table, lease_id, "hello");
    assert_eq!(prepared.expected, "hello");
    assert_eq!(prepared.submission.submitted_text(), "hello");
    assert_eq!(prepared.submission.thread_id(), THREAD);
    assert!(prepared.submission.is_direct());
    assert_eq!(
        refusal(table.prepare_submission(lease_id, "hello".to_string(), &shown(THREAD), 1)),
        WireResult::Unknown
    );
    assert_eq!(
        table.finish_submission(
            lease_id,
            prepared.submission.submission_id(),
            SubmissionDispatchOutcome::Accepted,
        ),
        WireResult::SendAccepted
    );
    assert_eq!(
        refusal(table.prepare_submission(lease_id, "hello".to_string(), &shown(THREAD), 1)),
        WireResult::SendAccepted
    );
    assert_eq!(
        table.verify(lease_id, "hello", &shown("other"), 9),
        WireResult::SubmissionPending
    );
    table.note_submission_committed(&prepared.submission);
    assert_eq!(
        refusal(table.prepare_submission(lease_id, "hello".to_string(), &shown(THREAD), 1)),
        WireResult::SubmittedIntact
    );
}

#[test]
fn the_first_submit_latches_the_text() {
    let mut table = DirectSendReservations::new();
    let lease_id = reserve(&mut table);
    let _ = dispatch(&mut table, lease_id, "hello");
    assert_eq!(
        refusal(table.prepare_submission(lease_id, "other".to_string(), &shown(THREAD), 1)),
        WireResult::not_applied(ErrorCode::ExpectedMismatch)
    );
    assert_eq!(
        table.verify(lease_id, "other", &shown(THREAD), 1),
        WireResult::not_applied(ErrorCode::ExpectedMismatch)
    );
}

#[test]
fn a_reservation_is_good_for_its_thread_and_chronology_only() {
    for (thread_id, epoch) in [("other", 1), (THREAD, 2)] {
        let mut table = DirectSendReservations::new();
        let lease_id = reserve(&mut table);
        assert_eq!(
            table.verify(lease_id, "hello", &shown(thread_id), epoch),
            WireResult::not_applied(ErrorCode::ReservationChanged)
        );
        assert_eq!(
            refusal(table.prepare_submission(
                lease_id,
                "hello".to_string(),
                &shown(thread_id),
                epoch
            )),
            WireResult::not_applied(ErrorCode::ReservationChanged)
        );
        assert_eq!(
            refusal(table.prepare_submission(lease_id, "hello".to_string(), &shown(THREAD), 1)),
            WireResult::not_applied(ErrorCode::ReservationChanged)
        );
    }
}

#[test]
fn an_unknown_reservation_is_refused() {
    let mut table = DirectSendReservations::new();
    let unavailable = WireResult::not_applied(ErrorCode::LeaseUnavailable);
    assert_eq!(
        refusal(table.prepare_submission(9, "x".to_string(), &shown(THREAD), 1)),
        unavailable
    );
    assert_eq!(table.verify(9, "x", &shown(THREAD), 1), unavailable);
    assert_eq!(table.keep(9), unavailable);
    assert_eq!(table.acknowledge_unknown(9), unavailable);
    assert_eq!(
        table.finish_submission(9, 9, SubmissionDispatchOutcome::Accepted),
        unavailable
    );
}

#[test]
fn a_completion_of_another_submission_changes_nothing() {
    let mut table = DirectSendReservations::new();
    let lease_id = reserve(&mut table);
    let prepared = dispatch(&mut table, lease_id, "hello");
    assert_eq!(
        table.finish_submission(
            lease_id,
            prepared.submission.submission_id() ^ 1,
            SubmissionDispatchOutcome::Accepted,
        ),
        WireResult::not_applied(ErrorCode::ExpectedMismatch)
    );
    assert_eq!(
        table.verify(lease_id, "hello", &shown(THREAD), 1),
        WireResult::Unknown
    );
}

#[test]
fn keeping_twice_is_keeping_once() {
    let mut table = DirectSendReservations::new();
    let lease_id = reserve(&mut table);
    assert_eq!(table.keep(lease_id), WireResult::Kept);
    assert_eq!(table.keep(lease_id), WireResult::Kept);
    assert!(!table.contains(lease_id));
    assert!(table.contains_keep_id(lease_id));
}

#[test]
fn a_message_on_its_way_is_let_go_when_it_settles() {
    let mut table = DirectSendReservations::new();
    let lease_id = reserve(&mut table);
    let prepared = dispatch(&mut table, lease_id, "hello");
    assert_eq!(table.keep(lease_id), WireResult::Unknown);
    assert_eq!(
        table.finish_submission(
            lease_id,
            prepared.submission.submission_id(),
            SubmissionDispatchOutcome::Accepted,
        ),
        WireResult::SendAccepted
    );
    assert_eq!(table.keep(lease_id), WireResult::Kept);
    assert!(table.contains(lease_id));
    table.note_submission_committed(&prepared.submission);
    assert!(!table.contains(lease_id));
    assert_eq!(table.keep(lease_id), WireResult::Kept);
}

#[test]
fn an_unknown_outcome_is_acknowledged_once_and_remembered() {
    let mut table = DirectSendReservations::new();
    let lease_id = reserve(&mut table);
    let prepared = dispatch(&mut table, lease_id, "hello");
    assert_eq!(table.acknowledge_unknown(lease_id), WireResult::Unknown);
    assert!(table.contains(lease_id));
    assert_eq!(
        table.finish_submission(
            lease_id,
            prepared.submission.submission_id(),
            SubmissionDispatchOutcome::Unknown,
        ),
        WireResult::Unknown
    );
    assert_eq!(
        table.acknowledge_unknown(lease_id),
        WireResult::UnknownAcknowledged
    );
    assert!(!table.contains(lease_id));
    assert!(table.contains_acknowledgement_id(lease_id));
    assert_eq!(
        table.acknowledge_unknown(lease_id),
        WireResult::UnknownAcknowledged
    );
}

#[test]
fn a_refused_dispatch_is_kept_as_refused() {
    let mut table = DirectSendReservations::new();
    let lease_id = reserve(&mut table);
    let prepared = dispatch(&mut table, lease_id, "hello");
    let refused = WireResult::not_applied(ErrorCode::SubmissionUnavailable);
    assert_eq!(
        table.finish_submission(
            lease_id,
            prepared.submission.submission_id(),
            SubmissionDispatchOutcome::NotApplied(ErrorCode::SubmissionUnavailable),
        ),
        refused
    );
    assert_eq!(
        table.finish_submission(
            lease_id,
            prepared.submission.submission_id(),
            SubmissionDispatchOutcome::Accepted,
        ),
        refused
    );
    assert_eq!(table.keep(lease_id), WireResult::Kept);
}

#[test]
fn a_late_commit_settles_an_unknown_outcome() {
    let mut table = DirectSendReservations::new();
    let lease_id = reserve(&mut table);
    let prepared = dispatch(&mut table, lease_id, "hello");
    table.finish_submission(
        lease_id,
        prepared.submission.submission_id(),
        SubmissionDispatchOutcome::AcceptedButUncommitted,
    );
    table.note_submission_pending(&prepared.submission);
    assert_eq!(
        table.verify(lease_id, "hello", &shown(THREAD), 1),
        WireResult::SubmissionPending
    );
    table.note_submission_committed(&prepared.submission);
    assert_eq!(
        table.verify(lease_id, "hello", &shown(THREAD), 1),
        WireResult::SubmittedIntact
    );
}

#[test]
fn an_abandoned_message_makes_room() {
    let mut table = DirectSendReservations::new();
    let first = reserve(&mut table);
    let prepared = dispatch(&mut table, first, "hello");
    table.note_submission_abandoned(&prepared.submission);
    assert_eq!(
        table.verify(first, "hello", &shown(THREAD), 1),
        WireResult::SubmissionAbandoned
    );
    for _ in 1..MAX_DIRECT_SEND_RESERVATIONS {
        reserve(&mut table);
    }
    let newest = reserve(&mut table);
    assert!(!table.contains(first));
    assert!(table.contains(newest));
    assert_eq!(
        table.acquire(THREAD.to_string(), 1),
        WireResult::not_applied(ErrorCode::LeaseUnavailable)
    );
}

#[test]
fn a_correction_is_retried_under_its_identity() {
    let mut table = DirectSendReservations::new();
    let (lease_id, prepared) = sent(&mut table, "parakeat");
    let first = correct(&mut table, lease_id, "parakeat", "Parakeet");
    assert_eq!(
        first.expected_client_user_message_id,
        prepared.submission.client_user_message_id()
    );
    assert_eq!(
        table.finish_correction(
            lease_id,
            first.correction_id,
            CorrectionDispatchOutcome::Unknown
        ),
        WireResult::CorrectionPending
    );
    let again = correct(&mut table, lease_id, "parakeat", "Parakeet");
    assert_eq!(again.correction_id, first.correction_id);
    assert_eq!(again.payload, first.payload);
    assert!(matches!(
        table.replace(lease_id, "parakeat".to_string(), "another".to_string()),
        ReplaceOutcome::Complete(result)
            if result == WireResult::not_applied(ErrorCode::LeaseUnavailable)
    ));
    assert_eq!(
        table.keep(lease_id),
        WireResult::not_applied(ErrorCode::LeaseUnavailable)
    );
    assert_eq!(
        table.finish_correction(
            lease_id,
            first.correction_id,
            CorrectionDispatchOutcome::Accepted
        ),
        WireResult::CorrectionQueued
    );
    assert!(!table.contains(lease_id));
}

#[test]
fn a_correction_that_must_be_cut_is_dropped() {
    let mut table = DirectSendReservations::new();
    let (lease_id, _) = sent(&mut table, "parakeat");
    let proposal = match table.replace(lease_id, "parakeat".to_string(), "Parakeet".to_string()) {
        ReplaceOutcome::Propose(proposal) => proposal,
        _ => panic!("a new correction is measured first"),
    };
    assert!(matches!(
        table.admit_correction(proposal, true),
        ReplaceOutcome::Complete(result)
            if result == WireResult::not_applied(ErrorCode::CorrectionUnavailable)
    ));
    assert_eq!(
        table.verify(lease_id, "parakeat", &shown(THREAD), 1),
        WireResult::SubmittedIntact
    );
}

#[test]
fn a_replacement_by_the_same_text_lets_the_reservation_go() {
    let mut table = DirectSendReservations::new();
    let (lease_id, _) = sent(&mut table, "same");
    assert!(matches!(
        table.replace(lease_id, "same".to_string(), "same".to_string()),
        ReplaceOutcome::Complete(WireResult::Kept)
    ));
    assert!(!table.contains(lease_id));
}

#[test]
fn a_rollback_settles_only_its_thread() {
    let mut table = DirectSendReservations::new();
    let (survivor, survived) = sent(&mut table, "stays");
    let (removed, _) = sent(&mut table, "goes");
    let elsewhere = match table.acquire("other".to_string(), 1) {
        WireResult::Reserved { lease_id } => lease_id,
        _ => panic!("there is room for a reservation"),
    };
    table.note_thread_rolled_back(THREAD, &vec![survived.submission.submission_id()]);
    assert_eq!(
        table.verify(survivor, "stays", &shown(THREAD), 1),
        WireResult::SubmittedIntact
    );
    assert_eq!(
        table.verify(removed, "goes", &shown(THREAD), 1),
        WireResult::SubmissionAbandoned
    );
    assert_eq!(
        table.verify(elsewhere, "later", &shown("other"), 1),
        WireResult::Verified
    );
    assert!(matches!(
        table.reservations.get(survivor).map(|entry| &entry.state),
        Some(DirectSendState::SubmittedIntact { .. })
    ));
}

#[test]
fn a_reservation_that_a_rollback_releases_stays_kept() {
    let mut table = DirectSendReservations::new();
    let lease_id = reserve(&mut table);
    let prepared = dispatch(&mut table, lease_id, "goes");
    table.note_submission_pending(&prepared.submission);
    assert_eq!(table.keep(lease_id), WireResult::Kept);
    assert!(table.contains(lease_id));
    table.note_thread_rolled_back(THREAD, &Vec::new());
    assert!(!table.contains(lease_id));
    assert_eq!(table.keep(lease_id), WireResult::Kept);
    assert_eq!(
        refusal(table.prepare_submission(lease_id, "goes".to_string(), &shown(THREAD), 1)),
        WireResult::not_applied(ErrorCode::LeaseUnavailable)
    );
}

fn frozen(text: &str) -> FrozenComposerAcquisition {
    FrozenComposerAcquisition {
        snapshot: Some(ComposerSnapshot::new(
            THREAD.to_string(),
            text.to_string(),
            text.len(),
        )),
        direct_send_available: true,
        plain_draft_send_available: true,
        input_epoch: 0,
        nonempty_capture_allowed: true,
    }
}

#[test]
fn a_frozen_composer_serves_acquisition_only() {
    let mut state = ComposerControlState::new();
    let empty = frozen("");
    let served = state.handle_frozen_acquisition_request(
        ComposerControlRequest {
            command: ComposerCommand::AcquireSend,
            expired: false,
        },
        &empty,
        false,
    );
    assert!(matches!(served, Ok(WireResult::Reserved { .. })));

    let draft = frozen("draft");
    let served = state.handle_frozen_acquisition_request(
        ComposerControlRequest {
            command: ComposerCommand::Capture,
            expired: false,
        },
        &draft,
        false,
    );
    assert!(matches!(served, Ok(WireResult::Captured { .. })));
    assert_eq!(state.captures.len(), 1);

    let handed_back = state.handle_frozen_acquisition_request(
        ComposerControlRequest {
            command: ComposerCommand::Keep { lease_id: 1 },
            expired: true,
        },
        &draft,
        true,
    );
    assert!(matches!(
        handed_back,
        Err(ComposerControlRequest {
            command: ComposerCommand::Keep { lease_id: 1 },
            expired: true,
        })
    ));
}

#[test]
fn a_frozen_composer_refuses_what_is_late_tainted_or_closed() {
    let mut state = ComposerControlState::new();
    let mut draft = frozen("draft");
    let acquire = || ComposerControlRequest {
        command: ComposerCommand::AcquireSend,
        expired: false,
    };
    let late = ComposerControlRequest {
        command: ComposerCommand::AcquireSend,
        expired: true,
    };
    assert!(matches!(
        state.handle_frozen_acquisition_request(late, &draft, true),
        Ok(result) if result == WireResult::not_applied(ErrorCode::UiTimeout)
    ));
    assert!(matches!(
        state.handle_frozen_acquisition_request(acquire(), &draft, true),
        Ok(result) if result == WireResult::not_applied(ErrorCode::SubmissionUnavailable)
    ));
    draft.nonempty_capture_allowed = false;
    assert_eq!(
        state.acquire_send_frozen(&draft),
        WireResult::not_applied(ErrorCode::SubmissionUnavailable)
    );
    assert_eq!(
        state.capture_frozen(&draft),
        WireResult::not_applied(ErrorCode::SubmissionUnavailable)
    );
    draft.snapshot = None;
    assert_eq!(
        state.acquire_send_frozen(&draft),
        WireResult::not_applied(ErrorCode::ComposerUnavailable)
    );
    let mut empty = frozen("");
    empty.direct_send_available = false;
    assert_eq!(
        state.acquire_send_frozen(&empty),
        WireResult::not_applied(ErrorCode::SubmissionUnavailable)
    );
    assert_eq!(state.captures.len(), 0);
}

#[test]
fn the_user_chronology_counts_on() {
    let mut state = ComposerControlState::with_user_chronology_epoch(u64::MAX);
    state.note_user_chronology_change();
    assert_eq!(state.current_user_chronology_epoch(), 0);
    state.set_user_chronology_epoch(5);
    assert_eq!(state.current_user_chronology_epoch(), 5);
}
