//! What a request has to say, what is understood of it, and what its answer means.
use crate::digest::{text_hash, TextDigest};
use crate::fence::{FenceId, FenceTable, SubmitFence};
use crate::ids::{hyphenated_text, hyphenated_text_injective, lists, Uuid};
use crate::lease::{
    attempt_fence_of, has_live_submit_fence, has_unresolved_draft_provenance,
    relinquish_unknown_submit, unknown_fence_of, ExternalLease, SubmitAttempt,
};
use crate::receipt::{direct_receipt, SubmittedLeaseReceipt};
use crate::submission::NativeComposerSubmission;
use crate::text::{text_at, utf8};
use crate::wire::{
    after_last_colon, first_session_guid, request_payload, session_guid, session_guid_from_value,
    socket_file_name, ui_reply_timeout_result, validate_inserted_text, ComposerCommand, ErrorCode,
    MutationOutcome, WireRequest, WireResponse, WireResult,
};
use vstd::prelude::*;
use vstd::string::*;

verus! {

/// Text is taken up to 262144 bytes, and empty text only where that is allowed.
pub proof fn text_is_taken_up_to_a_size(
    text: &str,
    may_be_empty: Result<(), ErrorCode>,
    not_empty: Result<(), ErrorCode>,
)
    requires
        call_ensures(validate_inserted_text, (text, true), may_be_empty),
        call_ensures(validate_inserted_text, (text, false), not_empty),
    ensures
        may_be_empty is Ok <==> utf8(text@).len() <= 262144,
        not_empty is Ok <==> may_be_empty is Ok && text@.len() > 0,
        may_be_empty is Err ==> may_be_empty->Err_0 == ErrorCode::InvalidText,
        not_empty is Err ==> not_empty->Err_0 == ErrorCode::InvalidText,
{
}

/// A command that is accepted says exactly what its request says: it is the same kind of command,
/// on the same capture or lease, with the same texts.
pub proof fn a_command_says_what_its_request_says(
    request: WireRequest,
    instance: Uuid,
    command: ComposerCommand,
)
    requires
        call_ensures(WireRequest::into_command, (request, instance), Ok(command)),
    ensures
        match (request, command) {
            (
                WireRequest::AcquireSend { protocol_version, instance_id },
                ComposerCommand::AcquireSend,
            ) => protocol_version == 1 && instance_id == instance,
            (
                WireRequest::Capture { protocol_version, instance_id },
                ComposerCommand::Capture,
            ) => protocol_version == 1 && instance_id == instance,
            (
                WireRequest::Insert { protocol_version, instance_id, capture_id, text },
                ComposerCommand::Insert { capture_id: on, text: with },
            ) => protocol_version == 1 && instance_id == instance && on == capture_id && with
                == text && 0 < text@.len() && utf8(text@).len() <= 262144,
            (
                WireRequest::Verify { protocol_version, instance_id, lease_id, expected },
                ComposerCommand::Verify { lease_id: on, expected: with },
            ) => protocol_version == 1 && instance_id == instance && on == lease_id && with
                == expected && 0 < expected@.len() && utf8(expected@).len() <= 262144,
            (
                WireRequest::Submit { protocol_version, instance_id, lease_id, expected },
                ComposerCommand::Submit { lease_id: on, expected: with },
            ) => protocol_version == 1 && instance_id == instance && on == lease_id && with
                == expected && 0 < expected@.len() && utf8(expected@).len() <= 262144,
            (
                WireRequest::Keep { protocol_version, instance_id, lease_id },
                ComposerCommand::Keep { lease_id: on },
            ) => protocol_version == 1 && instance_id == instance && on == lease_id,
            (
                WireRequest::AcknowledgeUnknown { protocol_version, instance_id, lease_id },
                ComposerCommand::AcknowledgeUnknown { lease_id: on },
            ) => protocol_version == 1 && instance_id == instance && on == lease_id,
            (
                WireRequest::Replace {
                    protocol_version,
                    instance_id,
                    lease_id,
                    expected,
                    replacement,
                },
                ComposerCommand::Replace { lease_id: on, expected: of, replacement: with },
            ) => protocol_version == 1 && instance_id == instance && on == lease_id && of
                == expected && with == replacement && 0 < expected@.len() && utf8(expected@).len()
                <= 262144 && utf8(replacement@).len() <= 262144,
            _ => false,
        },
{
}

/// A request without text that names the version and the instance is accepted. Text is looked at
/// first, then the version, then the instance, and the first that is wrong is the reason.
pub proof fn a_request_is_refused_for_its_first_fault(
    request: WireRequest,
    instance: Uuid,
    command: Result<ComposerCommand, ErrorCode>,
    lease_id: Uuid,
    expected: String,
    protocol_version: u8,
    instance_id: Uuid,
)
    requires
        call_ensures(WireRequest::into_command, (request, instance), command),
    ensures
        command is Err ==> command->Err_0 == ErrorCode::InvalidText || command->Err_0
            == ErrorCode::UnsupportedVersion || command->Err_0 == ErrorCode::WrongInstance,
        request == (WireRequest::Keep { protocol_version, instance_id, lease_id }) ==> {
            &&& command is Ok <==> protocol_version == 1 && instance_id == instance
            &&& protocol_version != 1 ==> command == Err::<ComposerCommand, _>(
                ErrorCode::UnsupportedVersion,
            )
            &&& protocol_version == 1 && instance_id != instance ==> command == Err::<
                ComposerCommand,
                _,
            >(ErrorCode::WrongInstance)
        },
        request == (WireRequest::Submit { protocol_version, instance_id, lease_id, expected }) ==> {
            &&& expected@.len() == 0 || utf8(expected@).len() > 262144 ==> command == Err::<
                ComposerCommand,
                _,
            >(ErrorCode::InvalidText)
            &&& 0 < expected@.len() && utf8(expected@).len() <= 262144 && protocol_version == 1
                && instance_id == instance ==> command is Ok
        },
{
}

/// The payload of a request line is the line without its newline; a line that is longer than
/// 524288 bytes without it is too large, and one that does not end is none.
pub proof fn a_payload_is_its_line(line: Vec<u8>, payload: Result<Vec<u8>, ErrorCode>)
    requires
        call_ensures(request_payload, (line,), payload),
    ensures
        payload matches Ok(bytes) ==> line@ == bytes@.push(10u8) && bytes@.len() <= 524288,
        payload matches Err(code) ==> code == ErrorCode::RequestTooLarge || code
            == ErrorCode::InvalidRequest,
        (exists|bytes: Seq<u8>| line@ == #[trigger] bytes.push(10u8) && bytes.len() <= 524288)
            ==> payload is Ok,
        line@.len() > 524289 ==> payload == Err::<Vec<u8>, _>(ErrorCode::RequestTooLarge),
        line@.len() <= 524288 && payload is Err ==> payload->Err_0 == ErrorCode::InvalidRequest,
{
    if let Ok(bytes) = payload {
        assert(line@ =~= bytes@.push(10u8));
    }
    if exists|bytes: Seq<u8>| line@ == #[trigger] bytes.push(10u8) && bytes.len() <= 524288 {
        let bytes = choose|bytes: Seq<u8>| line@ == #[trigger] bytes.push(10u8) && bytes.len()
            <= 524288;
        assert(line@.last() == 10u8);
        assert(line@.drop_last() =~= bytes);
    }
}

/// A lost reply leaves the outcome open exactly where the command can have had an effect that has
/// to be known: to capture, to verify and to keep can be asked for again.
pub proof fn a_lost_reply_leaves_effects_open(
    command: ComposerCommand,
    may: bool,
    result: WireResult,
)
    requires
        call_ensures(ComposerCommand::may_have_effect, (&command,), may),
        call_ensures(ui_reply_timeout_result, (may,), result),
    ensures
        result matches WireResult::Error { code, outcome } && code == ErrorCode::UiTimeout && (
        outcome == MutationOutcome::NotApplied <==> command is Capture || command is Verify
            || command is Keep) && (outcome == MutationOutcome::Unknown
            <==> command is AcquireSend || command is Insert || command is Submit
            || command is AcknowledgeUnknown || command is Replace),
{
}

/// A refusal says why, and that nothing was applied; a response says who answers.
pub proof fn a_refusal_had_no_effect(
    code: ErrorCode,
    outcome: MutationOutcome,
    refusal: WireResult,
    error: WireResult,
    instance_id: Uuid,
    response: WireResponse,
)
    requires
        call_ensures(WireResult::not_applied, (code,), refusal),
        call_ensures(WireResult::error, (code, outcome), error),
        call_ensures(WireResponse::new, (instance_id, error), response),
    ensures
        refusal == (WireResult::Error { code, outcome: MutationOutcome::NotApplied }),
        error == (WireResult::Error { code, outcome }),
        response.result == error,
        response.instance_id == instance_id,
        response.protocol_version == 1,
{
}

proof fn behind_the_last_colon(head: Seq<char>, tail: Seq<char>)
    requires
        !tail.contains(':'),
    ensures
        after_last_colon(head + seq![':'] + tail) == tail,
        after_last_colon(tail) == tail,
    decreases tail.len(),
{
    let value = head + seq![':'] + tail;
    if tail.len() == 0 {
        assert(value.last() == ':');
        assert(tail =~= Seq::<char>::empty());
    } else {
        let shorter = tail.drop_last();
        assert(tail.last() != ':') by {
            assert(tail[tail.len() - 1] == tail.last());
        }
        assert(!shorter.contains(':')) by {
            if shorter.contains(':') {
                let i = choose|i: int| 0 <= i < shorter.len() && shorter[i] == ':';
                assert(tail[i] == ':');
            }
        }
        behind_the_last_colon(head, shorter);
        assert(value.drop_last() =~= head + seq![':'] + shorter);
        assert(shorter.push(tail.last()) =~= tail);
    }
}

/// The session is the one that stands behind the last colon of the value, or is all of it.
pub proof fn a_session_stands_behind_the_last_colon(
    head: Seq<char>,
    session: Uuid,
    value: &str,
    guid: Option<String>,
)
    requires
        value@ == head + seq![':'] + hyphenated_text(session) || value@ == hyphenated_text(session),
        call_ensures(session_guid_from_value, (value,), guid),
    ensures
        guid is Some,
        guid->0@ == hyphenated_text(session),
{
    let tail = hyphenated_text(session);
    assert(!tail.contains(':')) by {
        if tail.contains(':') {
            let i = choose|i: int| 0 <= i < tail.len() && tail[i] == ':';
            let digits = crate::ids::simple_text(session);
            assert forall|k: int| 0 <= k < 32 implies #[trigger] digits[k] != ':' by {
                let nibble = crate::ids::nibble(session, k);
                assert(digits[k] == crate::ids::hex_digit(nibble));
            }
        }
    }
    behind_the_last_colon(head, tail);
}

/// Of several values the first that names a session counts.
pub proof fn the_first_session_counts(
    values: Vec<String>,
    at: int,
    first: &str,
    guid: Option<String>,
    found: Option<String>,
)
    requires
        call_ensures(first_session_guid, (&values,), found),
        0 <= at < values@.len(),
        first@ == values@[at]@,
        call_ensures(session_guid_from_value, (first,), guid),
        guid is Some,
        forall|k: int| 0 <= k < at ==> #[trigger] session_guid(values@[k]@) is None,
    ensures
        found is Some,
        found->0@ == guid->0@,
{
    assert(session_guid(values@[at]@) == Some(guid->0@));
    if let Some(text) = found {
        let i = choose|i: int|
            0 <= i < values@.len() && #[trigger] session_guid(values@[i]@) == Some(text@)
                && forall|k: int| 0 <= k < i ==> #[trigger] session_guid(values@[k]@) is None;
        if i > at {
            assert(session_guid(values@[at]@) is None);
        }
    }
}

/// Every process has a socket of its own for every instance.
pub proof fn sockets_are_told_apart(
    pid: u32,
    instance: Uuid,
    other_pid: u32,
    other_instance: Uuid,
    name: String,
    other_name: String,
)
    requires
        call_ensures(socket_file_name, (pid, instance), name),
        call_ensures(socket_file_name, (other_pid, other_instance), other_name),
    ensures
        name@ == other_name@ <==> pid == other_pid && instance == other_instance,
        ".sock"@.is_suffix_of(name@),
{
    let end = ".sock"@;
    let id = hyphenated_text(instance);
    let other_id = hyphenated_text(other_instance);
    let number = crate::text::decimal_text(pid as nat);
    let other_number = crate::text::decimal_text(other_pid as nat);
    assert(name@.subrange(name@.len() - end.len(), name@.len() as int) =~= end);
    if name@ == other_name@ {
        reveal_strlit("-");
        assert(id.len() == 36 && other_id.len() == 36);
        assert(number.len() == other_number.len());
        assert(number =~= name@.take(number.len() as int));
        assert(other_number =~= other_name@.take(number.len() as int));
        assert(id =~= name@.subrange(
            number.len() as int + 1,
            number.len() as int + 37,
        ));
        assert(other_id =~= other_name@.subrange(
            number.len() as int + 1,
            number.len() as int + 37,
        ));
        hyphenated_text_injective(instance, other_instance);
        crate::correction_laws::decimal_text_reads(pid as nat);
        crate::correction_laws::decimal_text_reads(other_pid as nat);
    }
}

/// Texts that are the same have the same digest.
pub proof fn a_digest_depends_on_the_text_alone(
    a: &str,
    b: &str,
    digest_a: TextDigest,
    digest_b: TextDigest,
)
    requires
        call_ensures(text_hash, (a,), digest_a),
        call_ensures(text_hash, (b,), digest_b),
        a@ == b@,
    ensures
        digest_a == digest_b,
{
}

/// A list names what is on it.
pub proof fn a_list_names_what_is_on_it(ids: Vec<Uuid>, id: Uuid, found: bool)
    requires
        call_ensures(lists, (&ids, id), found),
    ensures
        found <==> exists|i: int| 0 <= i < ids@.len() && #[trigger] ids@[i] == id,
{
    if found {
        let i = choose|i: int| 0 <= i < ids@.len() && ids@[i] == id;
        assert(ids@[i] == id);
    }
}

/// A fence stands once it is raised; the fences before it are as they were.
pub proof fn a_raised_fence_stands(
    table: &mut FenceTable,
    id: FenceId,
    after: FenceTable,
    relinquished: bool,
)
    requires
        call_ensures(FenceTable::raise, (table,), id),
        after == *final(table),
        call_ensures(FenceTable::is_relinquished, (&after, id), relinquished),
    ensures
        !relinquished,
        id.index == old(table).fences@.len(),
        final(table).fences@.take(id.index as int) == old(table).fences@,
        final(table).fences@.len() == old(table).fences@.len() + 1,
{
    assert(final(table).fences@.take(id.index as int) =~= old(table).fences@);
}

/// A fence that is let go is let go for every holder of its handle, and no other fence is.
pub proof fn letting_go_concerns_one_fence(
    table: &mut FenceTable,
    id: FenceId,
    other: FenceId,
    after: FenceTable,
    before: FenceTable,
    gone: bool,
    other_gone: bool,
    other_was_gone: bool,
)
    requires
        call_ensures(FenceTable::relinquish, (table, id), ()),
        before == *old(table),
        after == *final(table),
        call_ensures(FenceTable::is_relinquished, (&after, id), gone),
        call_ensures(FenceTable::is_relinquished, (&after, other), other_gone),
        call_ensures(FenceTable::is_relinquished, (&before, other), other_was_gone),
    ensures
        gone,
        other != id ==> other_gone == other_was_gone,
        final(table).fences@.len() == old(table).fences@.len(),
{
    if other != id {
        assert(other.index != id.index);
    }
}

/// A handle that names no fence guards nothing.
pub proof fn an_unknown_handle_guards_nothing(table: FenceTable, id: FenceId, gone: bool)
    requires
        call_ensures(FenceTable::is_relinquished, (&table, id), gone),
        id.index >= table.fences@.len(),
    ensures
        gone,
{
}

/// Of two calls that disclose a fence only the first is told that it is the first; that a fence was
/// disclosed does not let it go.
pub proof fn a_fence_is_first_disclosed_once(
    table: &mut FenceTable,
    again: &mut FenceTable,
    id: FenceId,
    first: bool,
    second: bool,
)
    requires
        call_ensures(FenceTable::disclose_once, (table, id), first),
        old(again).fences@ == final(table).fences@,
        call_ensures(FenceTable::disclose_once, (again, id), second),
        id.index < old(table).fences@.len(),
    ensures
        first <==> !old(table).fences@[id.index as int].disclosed,
        !second,
        final(table).fences@[id.index as int].relinquished == old(table).fences@[
            id.index as int
        ].relinquished,
{
}

/// A single fence rises the same way.
pub proof fn a_fence_only_rises(
    fence: &mut SubmitFence,
    disclosed: &mut SubmitFence,
    made: SubmitFence,
    first: bool,
    gone: bool,
)
    requires
        call_ensures(SubmitFence::new, (), made),
        call_ensures(SubmitFence::relinquish, (fence,), ()),
        call_ensures(SubmitFence::disclose_once, (disclosed,), first),
        call_ensures(SubmitFence::is_relinquished, (&made,), gone),
    ensures
        !made.relinquished && !made.disclosed && !gone,
        final(fence).relinquished,
        final(fence).disclosed == old(fence).disclosed,
        first <==> !old(disclosed).disclosed,
        final(disclosed).disclosed,
        final(disclosed).relinquished == old(disclosed).relinquished,
{
}

/// A lease guards its draft while its attempt is under way, or its outcome is unknown and not let
/// go, and its fence stands. An attempt with any other outcome guards nothing.
pub proof fn an_attempt_guards_until_it_is_known(
    lease: ExternalLease,
    fences: FenceTable,
    live: bool,
    fence: Option<FenceId>,
    unknown: Option<FenceId>,
    gone: bool,
)
    requires
        call_ensures(has_live_submit_fence, (&lease, &fences), live),
        call_ensures(attempt_fence_of, (&lease.submit_attempt,), fence),
        call_ensures(unknown_fence_of, (&lease.submit_attempt,), unknown),
        fence is Some ==> call_ensures(FenceTable::is_relinquished, (&fences, fence->0), gone),
    ensures
        live <==> fence is Some && !gone,
        lease.submit_attempt is None ==> fence is None,
        lease.submit_attempt matches Some(SubmitAttempt::Dispatching { fence: raised }) ==> fence
            == Some(raised) && unknown is None,
        lease.submit_attempt matches Some(SubmitAttempt::Resolved { result, guard }) ==> {
            &&& result == WireResult::Unknown ==> fence == guard && unknown == guard
            &&& result != WireResult::Unknown ==> fence is None && unknown is None
        },
{
}

/// A draft may have been sent where its attempt is under way or its outcome unknown.
pub proof fn a_draft_in_doubt_may_have_been_sent(lease: ExternalLease, unresolved: bool)
    requires
        call_ensures(has_unresolved_draft_provenance, (&lease,), unresolved),
    ensures
        unresolved ==> lease.state is Draft && lease.submit_attempt is Some,
        lease.state is Draft ==> (unresolved <==> match lease.submit_attempt {
            Some(SubmitAttempt::Dispatching { .. }) => true,
            Some(SubmitAttempt::Resolved { result, .. }) => result == WireResult::Unknown,
            None => false,
        }),
{
}

/// Letting go of an unknown outcome ends its guard and leaves everything else: the outcome stays
/// unknown, and an attempt that is under way or known is not touched.
pub proof fn an_unknown_outcome_is_let_go(lease: &mut ExternalLease, fences: &mut FenceTable)
    requires
        call_ensures(relinquish_unknown_submit, (lease, fences), ()),
    ensures
        final(lease).state == old(lease).state,
        final(lease).thread_id == old(lease).thread_id,
        final(lease).expected_hash == old(lease).expected_hash,
        final(lease).draft_witness == old(lease).draft_witness,
        old(lease).submit_attempt matches Some(
            SubmitAttempt::Resolved { result: WireResult::Unknown, guard: Some(fence) },
        ) ==> {
            &&& final(lease).submit_attempt == Some(
                SubmitAttempt::Resolved { result: WireResult::Unknown, guard: None },
            )
            &&& fence.index < old(fences).fences@.len() ==> final(fences).fences@[
                fence.index as int
            ].relinquished
        },
        !(old(lease).submit_attempt matches Some(
            SubmitAttempt::Resolved { result: WireResult::Unknown, guard: Some(fence) },
        )) ==> *final(lease) == *old(lease) && final(fences).fences@ == old(fences).fences@,
{
}

/// A receipt owns the text that stands at its range, and that text only; the receipt of a
/// composer-free submission owns the whole message.
pub proof fn a_receipt_owns_its_range(
    receipt: SubmittedLeaseReceipt,
    expected: &str,
    owns: bool,
    submission: NativeComposerSubmission,
    whole: SubmittedLeaseReceipt,
    copy: SubmittedLeaseReceipt,
)
    requires
        call_ensures(SubmittedLeaseReceipt::owns, (&receipt, expected), owns),
        call_ensures(direct_receipt, (&submission,), whole),
        call_ensures(SubmittedLeaseReceipt::copied, (&receipt,), copy),
    ensures
        owns <==> text_at(
            receipt.submitted_text@,
            receipt.range.start as int,
            receipt.range.end as int,
        ) == Some(expected@),
        whole.submission_id == submission.submission_id,
        whole.submitted_text@ == submission.submitted_text@,
        text_at(
            whole.submitted_text@,
            whole.range.start as int,
            whole.range.end as int,
        ) == Some(submission.submitted_text@),
        copy == receipt,
{
    let text = submission.submitted_text@;
    crate::text::text_at_middle(Seq::empty(), text, Seq::empty());
    crate::text::utf8_empty();
    assert(Seq::<char>::empty() + text + Seq::<char>::empty() =~= text);
}

} // verus!
