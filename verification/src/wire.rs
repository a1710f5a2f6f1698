//! The wire protocol: requests, their validation, and results.
use crate::ids::{hyphenated, hyphenated_text, parse_uuid, parsed_uuid, Uuid};
use crate::text::{byte_len, decimal, decimal_text, utf8};
use vstd::prelude::*;
use vstd::string::*;

verus! {

/// The only protocol version that is spoken.
pub const PROTOCOL_VERSION: u8 = 1;

/// The longest text that a request may carry, in bytes.
pub const MAX_TEXT_BYTES: usize = 262144;

/// The longest request line, in bytes and without its newline.
pub const MAX_WIRE_REQUEST_BYTES: usize = 524288;

/// Why a request was refused.
#[derive(Clone, Copy, Debug, PartialEq, Eq, Structural)]
pub enum ErrorCode {
    InvalidRequest,
    UnsupportedVersion,
    WrongInstance,
    RequestTooLarge,
    InvalidText,
    ComposerUnavailable,
    CaptureUnavailable,
    CaptureChanged,
    LeaseUnavailable,
    ExpectedMismatch,
    CursorConflict,
    CorrectionUnavailable,
    SubmissionUnavailable,
    ReservationChanged,
    UiUnavailable,
    UiTimeout,
}

/// Whether a refused request can have had an effect.
#[derive(Clone, Copy, Debug, PartialEq, Eq, Structural)]
pub enum MutationOutcome {
    NotApplied,
    Unknown,
}

/// The answer to a request.
#[derive(Clone, Copy, Debug, PartialEq, Eq, Structural)]
pub enum WireResult {
    Reserved { lease_id: Uuid },
    Captured { capture_id: Uuid },
    Inserted { lease_id: Uuid },
    Verified,
    /// App-server accepted the exact turn or steer. The matching user-message item has not yet
    /// committed to model history.
    SendAccepted,
    /// The matching user message has not committed to model history yet. No lease state or text
    /// was changed; retry the same operation with the same lease after the commit transition.
    SubmissionPending,
    /// The dedicated correction commit may have reached durable model history, but its
    /// acknowledgement was ambiguous. Retry the exact same replacement with this lease; the
    /// retained correction identity makes that retry idempotent.
    CorrectionPending,
    /// The correction commit was accepted for the originating thread. This does not claim that
    /// the model has sampled or semantically applied the correction.
    CorrectionQueued,
    SubmittedIntact,
    SubmissionAbandoned,
    /// Dispatch may have reached app-server. Submit is never retried under this lease.
    Unknown,
    /// The producer explicitly accepted an unknowable one-shot dispatch outcome and relinquished
    /// local ownership. This is not cancellation; app-server may still commit the original send.
    UnknownAcknowledged,
    Kept,
    Replaced,
    Error { code: ErrorCode, outcome: MutationOutcome },
}

/// A refusal that had no effect.
pub open spec fn refused(code: ErrorCode) -> WireResult {
    WireResult::Error { code, outcome: MutationOutcome::NotApplied }
}

impl WireResult {
    pub fn error(code: ErrorCode, outcome: MutationOutcome) -> (result: Self)
        ensures
            result == (WireResult::Error { code, outcome }),
    {
        WireResult::Error { code, outcome }
    }

    pub fn not_applied(code: ErrorCode) -> (result: Self)
        ensures
            result == refused(code),
    {
        WireResult::error(code, MutationOutcome::NotApplied)
    }
}

/// A response line: the result under the version and instance that answer.
pub struct WireResponse {
    pub protocol_version: u8,
    pub instance_id: Uuid,
    pub result: WireResult,
}

impl WireResponse {
    /// The response that instance `instance_id` gives.
    pub fn new(instance_id: Uuid, result: WireResult) -> (response: Self)
        ensures
            response == (WireResponse { protocol_version: PROTOCOL_VERSION, instance_id, result }),
    {
        WireResponse { protocol_version: PROTOCOL_VERSION, instance_id, result }
    }
}

/// Transcript-bearing command. It has no `Debug`, so that its text is never formatted.
pub enum ComposerCommand {
    AcquireSend,
    Capture,
    Insert { capture_id: Uuid, text: String },
    Verify { lease_id: Uuid, expected: String },
    Submit { lease_id: Uuid, expected: String },
    Keep { lease_id: Uuid },
    AcknowledgeUnknown { lease_id: Uuid },
    Replace { lease_id: Uuid, expected: String, replacement: String },
}

impl ComposerCommand {
    /// `true` exactly for the commands of which a lost reply leaves open whether they had an effect
    /// that the producer has to know of. To capture, to verify and to keep can simply be asked for
    /// again.
    pub fn may_have_effect(&self) -> (may: bool)
        ensures
            may == !(self is Capture || self is Verify || self is Keep),
    {
        matches!(
            self,
            ComposerCommand::AcquireSend
                | ComposerCommand::Insert { .. }
                | ComposerCommand::Submit { .. }
                | ComposerCommand::AcknowledgeUnknown { .. }
                | ComposerCommand::Replace { .. }
        )
    }
}

/// A request as it stands on the wire.
pub enum WireRequest {
    AcquireSend { protocol_version: u8, instance_id: Uuid },
    Capture { protocol_version: u8, instance_id: Uuid },
    Insert { protocol_version: u8, instance_id: Uuid, capture_id: Uuid, text: String },
    Verify { protocol_version: u8, instance_id: Uuid, lease_id: Uuid, expected: String },
    Submit { protocol_version: u8, instance_id: Uuid, lease_id: Uuid, expected: String },
    Keep { protocol_version: u8, instance_id: Uuid, lease_id: Uuid },
    AcknowledgeUnknown { protocol_version: u8, instance_id: Uuid, lease_id: Uuid },
    Replace {
        protocol_version: u8,
        instance_id: Uuid,
        lease_id: Uuid,
        expected: String,
        replacement: String,
    },
}

/// `text` may be inserted: it is not too long, and it is not empty unless that is allowed.
pub open spec fn is_valid_text(text: Seq<char>, allow_empty: bool) -> bool {
    (allow_empty || text.len() > 0) && utf8(text).len() <= MAX_TEXT_BYTES
}

/// Refuses text that is too long, or empty where that is not allowed.
pub fn validate_inserted_text(text: &str, allow_empty: bool) -> (checked: Result<(), ErrorCode>)
    ensures
        checked is Ok == is_valid_text(text@, allow_empty),
        checked is Err ==> checked->Err_0 == ErrorCode::InvalidText,
{
    if (!allow_empty && text.is_empty()) || byte_len(text) > MAX_TEXT_BYTES {
        return Err(ErrorCode::InvalidText);
    }
    Ok(())
}

impl WireRequest {
    pub open spec fn protocol_version(self) -> u8 {
        match self {
            WireRequest::AcquireSend { protocol_version, .. } => protocol_version,
            WireRequest::Capture { protocol_version, .. } => protocol_version,
            WireRequest::Insert { protocol_version, .. } => protocol_version,
            WireRequest::Verify { protocol_version, .. } => protocol_version,
            WireRequest::Submit { protocol_version, .. } => protocol_version,
            WireRequest::Keep { protocol_version, .. } => protocol_version,
            WireRequest::AcknowledgeUnknown { protocol_version, .. } => protocol_version,
            WireRequest::Replace { protocol_version, .. } => protocol_version,
        }
    }

    pub open spec fn instance_id(self) -> Uuid {
        match self {
            WireRequest::AcquireSend { instance_id, .. } => instance_id,
            WireRequest::Capture { instance_id, .. } => instance_id,
            WireRequest::Insert { instance_id, .. } => instance_id,
            WireRequest::Verify { instance_id, .. } => instance_id,
            WireRequest::Submit { instance_id, .. } => instance_id,
            WireRequest::Keep { instance_id, .. } => instance_id,
            WireRequest::AcknowledgeUnknown { instance_id, .. } => instance_id,
            WireRequest::Replace { instance_id, .. } => instance_id,
        }
    }

    /// Every text of the request may be inserted; only a replacement may be empty.
    pub open spec fn texts_are_valid(self) -> bool {
        match self {
            WireRequest::Insert { text, .. } => is_valid_text(text@, false),
            WireRequest::Verify { expected, .. } => is_valid_text(expected@, false),
            WireRequest::Submit { expected, .. } => is_valid_text(expected@, false),
            WireRequest::Replace { expected, replacement, .. } => is_valid_text(expected@, false)
                && is_valid_text(replacement@, true),
            _ => true,
        }
    }

    /// The command that the request asks for, whatever version and instance it names.
    pub open spec fn command(self) -> ComposerCommand {
        match self {
            WireRequest::AcquireSend { .. } => ComposerCommand::AcquireSend,
            WireRequest::Capture { .. } => ComposerCommand::Capture,
            WireRequest::Insert { capture_id, text, .. } => ComposerCommand::Insert {
                capture_id,
                text,
            },
            WireRequest::Verify { lease_id, expected, .. } => ComposerCommand::Verify {
                lease_id,
                expected,
            },
            WireRequest::Submit { lease_id, expected, .. } => ComposerCommand::Submit {
                lease_id,
                expected,
            },
            WireRequest::Keep { lease_id, .. } => ComposerCommand::Keep { lease_id },
            WireRequest::AcknowledgeUnknown { lease_id, .. } => {
                ComposerCommand::AcknowledgeUnknown { lease_id }
            },
            WireRequest::Replace { lease_id, expected, replacement, .. } => {
                ComposerCommand::Replace { lease_id, expected, replacement }
            },
        }
    }

    /// Why `expected_instance_id` refuses the request: its text first, then its version, then
    /// the instance it names.
    pub open spec fn refusal(self, expected_instance_id: Uuid) -> Option<ErrorCode> {
        if !self.texts_are_valid() {
            Some(ErrorCode::InvalidText)
        } else if self.protocol_version() != PROTOCOL_VERSION {
            Some(ErrorCode::UnsupportedVersion)
        } else if self.instance_id() != expected_instance_id {
            Some(ErrorCode::WrongInstance)
        } else {
            None
        }
    }

    /// The command of a request that is addressed to `expected_instance_id` and whose texts may
    /// be inserted.
    pub fn into_command(self, expected_instance_id: Uuid) -> (command: Result<
        ComposerCommand,
        ErrorCode,
    >)
        ensures
            match command {
                Ok(accepted) => self.refusal(expected_instance_id) is None && accepted
                    == self.command(),
                Err(code) => self.refusal(expected_instance_id) == Some(code),
            },
    {
        let (protocol_version, instance_id, command) = match self {
            WireRequest::AcquireSend { protocol_version, instance_id } => (
                protocol_version,
                instance_id,
                ComposerCommand::AcquireSend,
            ),
            WireRequest::Capture { protocol_version, instance_id } => (
                protocol_version,
                instance_id,
                ComposerCommand::Capture,
            ),
            WireRequest::Insert { protocol_version, instance_id, capture_id, text } => {
                validate_inserted_text(&text,   /*allow_empty*/ false)?;
                (protocol_version, instance_id, ComposerCommand::Insert { capture_id, text })
            },
            WireRequest::Verify { protocol_version, instance_id, lease_id, expected } => {
                validate_inserted_text(&expected,   /*allow_empty*/ false)?;
                (protocol_version, instance_id, ComposerCommand::Verify { lease_id, expected })
            },
            WireRequest::Submit { protocol_version, instance_id, lease_id, expected } => {
                validate_inserted_text(&expected,   /*allow_empty*/ false)?;
                (protocol_version, instance_id, ComposerCommand::Submit { lease_id, expected })
            },
            WireRequest::Keep { protocol_version, instance_id, lease_id } => (
                protocol_version,
                instance_id,
                ComposerCommand::Keep { lease_id },
            ),
            WireRequest::AcknowledgeUnknown { protocol_version, instance_id, lease_id } => (
                protocol_version,
                instance_id,
                ComposerCommand::AcknowledgeUnknown { lease_id },
            ),
            WireRequest::Replace {
                protocol_version,
                instance_id,
                lease_id,
                expected,
                replacement,
            } => {
                validate_inserted_text(&expected,   /*allow_empty*/ false)?;
                validate_inserted_text(&replacement,   /*allow_empty*/ true)?;
                (
                    protocol_version,
                    instance_id,
                    ComposerCommand::Replace { lease_id, expected, replacement },
                )
            },
        };
        if protocol_version != PROTOCOL_VERSION {
            return Err(ErrorCode::UnsupportedVersion);
        }
        if instance_id != expected_instance_id {
            return Err(ErrorCode::WrongInstance);
        }
        Ok(command)
    }
}

/// `line` ends in a newline.
pub open spec fn is_terminated(line: Seq<u8>) -> bool {
    line.len() > 0 && line.last() == 10u8
}

/// The bytes of `line` before its newline.
pub open spec fn unterminated(line: Seq<u8>) -> Seq<u8> {
    if is_terminated(line) {
        line.drop_last()
    } else {
        line
    }
}

/// The payload of a request line: a line that is too long is refused first, then one that does
/// not end.
pub fn request_payload(line: Vec<u8>) -> (payload: Result<Vec<u8>, ErrorCode>)
    ensures
        match payload {
            Ok(bytes) => is_terminated(line@) && unterminated(line@).len() <= MAX_WIRE_REQUEST_BYTES
                && bytes@ == unterminated(line@),
            Err(ErrorCode::RequestTooLarge) => unterminated(line@).len() > MAX_WIRE_REQUEST_BYTES,
            Err(code) => code == ErrorCode::InvalidRequest && !is_terminated(line@) && line@.len()
                <= MAX_WIRE_REQUEST_BYTES,
        },
{
    let mut line = line;
    let has_newline = line.len() > 0 && line[line.len() - 1] == 10u8;
    let payload_len: usize = if has_newline {
        line.len() - 1
    } else {
        line.len()
    };
    if payload_len > MAX_WIRE_REQUEST_BYTES {
        return Err(ErrorCode::RequestTooLarge);
    }
    if !has_newline {
        return Err(ErrorCode::InvalidRequest);
    }
    let _newline: Option<u8> = line.pop();
    Ok(line)
}

/// What is answered when the UI does not reply in time.
pub fn ui_reply_timeout_result(may_have_effect: bool) -> (result: WireResult)
    ensures
        result == (WireResult::Error {
            code: ErrorCode::UiTimeout,
            outcome: if may_have_effect {
                MutationOutcome::Unknown
            } else {
                MutationOutcome::NotApplied
            },
        }),
{
    if may_have_effect {
        WireResult::error(ErrorCode::UiTimeout, MutationOutcome::Unknown)
    } else {
        WireResult::not_applied(ErrorCode::UiTimeout)
    }
}

/// The part of `value` after its last colon; all of it where there is none.
pub open spec fn after_last_colon(value: Seq<char>) -> Seq<char>
    decreases value.len(),
{
    if value.len() == 0 || value.last() == ':' {
        Seq::empty()
    } else {
        after_last_colon(value.drop_last()).push(value.last())
    }
}

proof fn after_last_colon_is(value: Seq<char>, from: int)
    requires
        0 <= from <= value.len(),
        from == 0 || value[from - 1] == ':',
        forall|k: int| from <= k < value.len() ==> value[k] != ':',
    ensures
        after_last_colon(value) == value.subrange(from, value.len() as int),
    decreases value.len(),
{
    if value.len() == from {
        assert(value.subrange(from, value.len() as int) =~= Seq::<char>::empty());
    } else {
        let shorter = value.drop_last();
        after_last_colon_is(shorter, from);
        assert(value.subrange(from, value.len() as int) =~= shorter.subrange(
            from,
            shorter.len() as int,
        ).push(value.last()));
    }
}

/// The session identifier that the last part of an environment value spells.
pub open spec fn session_guid(value: Seq<char>) -> Option<Seq<char>> {
    match parsed_uuid(after_last_colon(value)) {
        Some(id) => Some(hyphenated_text(id)),
        None => None,
    }
}

/// The canonical session identifier at the end of an environment value such as `w0t1p2:<uuid>`.
pub fn session_guid_from_value(value: &str) -> (guid: Option<String>)
    ensures
        (match guid {
            Some(text) => Some(text@),
            None => None,
        }) == session_guid(value@),
        forall|written: Uuid| #[trigger]
            hyphenated_text(written) == after_last_colon(value@) ==> (guid matches Some(text)
                && text@ == after_last_colon(value@)),
{
    let len: usize = value.unicode_len();
    let mut from: usize = len;
    while from > 0 && value.get_char(from - 1) != ':'
        invariant
            from <= len,
            len == value@.len(),
            forall|k: int| from <= k < len ==> value@[k] != ':',
        decreases from,
    {
        from -= 1;
    }
    proof {
        after_last_colon_is(value@, from as int);
    }
    let suffix: &str = value.substring_char(from, len);
    match parse_uuid(suffix) {
        Some(id) => Some(hyphenated(id)),
        None => None,
    }
}

/// The session identifier of the first value that ends in one.
pub fn first_session_guid(values: &Vec<String>) -> (guid: Option<String>)
    ensures
        match guid {
            Some(text) => exists|i: int|
                0 <= i < values@.len() && #[trigger] session_guid(values@[i]@) == Some(text@)
                    && forall|k: int|
                    0 <= k < i ==> #[trigger] session_guid(values@[k]@) is None,
            None => forall|k: int|
                0 <= k < values@.len() ==> #[trigger] session_guid(values@[k]@) is None,
        },
{
    let mut i: usize = 0;
    while i < values.len()
        invariant
            i <= values@.len(),
            forall|k: int| 0 <= k < i ==> #[trigger] session_guid(values@[k]@) is None,
        decreases values@.len() - i,
    {
        let guid: Option<String> = session_guid_from_value(&values[i]);
        if guid.is_some() {
            assert(session_guid(values@[i as int]@) == Some(guid->0@));
            return guid;
        }
        i += 1;
    }
    None
}

/// The file name of the socket on which process `pid` serves `instance_id`.
pub fn socket_file_name(pid: u32, instance_id: Uuid) -> (name: String)
    ensures
        name@ == decimal_text(pid as nat) + "-"@ + hyphenated_text(instance_id) + ".sock"@,
{
    decimal(pid as u64).concat("-").concat(hyphenated(instance_id).as_str()).concat(".sock")
}

} // verus!
