use composer_control::ids::Uuid;
use composer_control::wire::{
    first_session_guid, request_payload, session_guid_from_value, socket_file_name,
    ui_reply_timeout_result, validate_inserted_text, ComposerCommand, ErrorCode, MutationOutcome,
    WireRequest, WireResponse, WireResult, MAX_TEXT_BYTES, MAX_WIRE_REQUEST_BYTES,
    PROTOCOL_VERSION,
};

const INSTANCE: Uuid = 0x0011_2233_4455_4677_8899_aabb_ccdd_eeff;
const LEASE: Uuid = 7;

#[test]
fn a_request_for_another_instance_is_refused() {
    let request = WireRequest::Capture {
        protocol_version: PROTOCOL_VERSION,
        instance_id: INSTANCE + 1,
    };
    assert!(matches!(
        request.into_command(INSTANCE),
        Err(ErrorCode::WrongInstance)
    ));
}

#[test]
fn the_version_is_looked_at_before_the_instance() {
    let request = WireRequest::AcquireSend {
        protocol_version: 0,
        instance_id: INSTANCE + 1,
    };
    assert!(matches!(
        request.into_command(INSTANCE),
        Err(ErrorCode::UnsupportedVersion)
    ));
}

#[test]
fn only_a_replacement_may_be_empty() {
    let empty_expected = WireRequest::Verify {
        protocol_version: PROTOCOL_VERSION,
        instance_id: INSTANCE,
        lease_id: LEASE,
        expected: String::new(),
    };
    assert!(matches!(
        empty_expected.into_command(INSTANCE),
        Err(ErrorCode::InvalidText)
    ));
    let empty_insert = WireRequest::Insert {
        protocol_version: PROTOCOL_VERSION,
        instance_id: INSTANCE,
        capture_id: LEASE,
        text: String::new(),
    };
    assert!(matches!(
        empty_insert.into_command(INSTANCE),
        Err(ErrorCode::InvalidText)
    ));
    let deletion = WireRequest::Replace {
        protocol_version: PROTOCOL_VERSION,
        instance_id: INSTANCE,
        lease_id: LEASE,
        expected: "gone".to_string(),
        replacement: String::new(),
    };
    assert!(matches!(
        deletion.into_command(INSTANCE),
        Ok(ComposerCommand::Replace { lease_id: LEASE, expected, replacement })
            if expected == "gone" && replacement.is_empty()
    ));
}

#[test]
fn requests_without_text_become_their_commands() {
    let keep = WireRequest::Keep {
        protocol_version: PROTOCOL_VERSION,
        instance_id: INSTANCE,
        lease_id: LEASE,
    };
    assert!(matches!(
        keep.into_command(INSTANCE),
        Ok(ComposerCommand::Keep { lease_id: LEASE })
    ));
    let acknowledge = WireRequest::AcknowledgeUnknown {
        protocol_version: PROTOCOL_VERSION,
        instance_id: INSTANCE,
        lease_id: LEASE,
    };
    let command = match acknowledge.into_command(INSTANCE) {
        Ok(command) => command,
        Err(_) => panic!("an acknowledgement carries no text"),
    };
    assert!(command.may_have_effect());
    assert!(matches!(
        command,
        ComposerCommand::AcknowledgeUnknown { lease_id: LEASE }
    ));
    assert!(ComposerCommand::AcquireSend.may_have_effect());
}

#[test]
fn text_is_bounded_in_bytes() {
    let longest = "x".repeat(MAX_TEXT_BYTES);
    assert_eq!(MAX_TEXT_BYTES, 262_144);
    assert_eq!(validate_inserted_text(&longest, false), Ok(()));
    assert_eq!(
        validate_inserted_text(&format!("{longest}x"), false),
        Err(ErrorCode::InvalidText)
    );
    let two_byte = "é".repeat(MAX_TEXT_BYTES / 2);
    assert_eq!(validate_inserted_text(&two_byte, false), Ok(()));
    assert_eq!(
        validate_inserted_text(&format!("{two_byte}é"), true),
        Err(ErrorCode::InvalidText)
    );
    assert_eq!(validate_inserted_text("", true), Ok(()));
    assert_eq!(
        validate_inserted_text("", false),
        Err(ErrorCode::InvalidText)
    );
}

#[test]
fn a_request_line_ends_in_a_newline_and_is_bounded() {
    assert_eq!(request_payload(b"{}\n".to_vec()), Ok(b"{}".to_vec()));
    assert_eq!(
        request_payload(b"{}".to_vec()),
        Err(ErrorCode::InvalidRequest)
    );
    assert_eq!(request_payload(Vec::new()), Err(ErrorCode::InvalidRequest));
    assert_eq!(request_payload(b"\n".to_vec()), Ok(Vec::new()));

    let mut line = vec![b' '; MAX_WIRE_REQUEST_BYTES];
    assert_eq!(
        request_payload(line.clone()),
        Err(ErrorCode::InvalidRequest)
    );
    line.push(b'\n');
    assert_eq!(
        request_payload(line.clone()).map(|payload| payload.len()),
        Ok(MAX_WIRE_REQUEST_BYTES)
    );
    line.insert(0, b' ');
    assert_eq!(request_payload(line), Err(ErrorCode::RequestTooLarge));
}

#[test]
fn a_reply_that_does_not_come_says_whether_it_may_have_had_an_effect() {
    assert_eq!(
        ui_reply_timeout_result(true),
        WireResult::error(ErrorCode::UiTimeout, MutationOutcome::Unknown)
    );
    assert_eq!(
        ui_reply_timeout_result(false),
        WireResult::not_applied(ErrorCode::UiTimeout)
    );
}

#[test]
fn a_response_names_its_version_and_instance() {
    let response = WireResponse::new(INSTANCE, WireResult::Kept);
    assert_eq!(response.protocol_version, 1);
    assert_eq!(response.instance_id, INSTANCE);
    assert_eq!(response.result, WireResult::Kept);
}

#[test]
fn a_session_is_named_by_what_follows_the_last_colon() {
    let guid = "00112233-4455-4677-8899-aabbccddeeff";
    assert_eq!(session_guid_from_value(guid), Some(guid.to_string()));
    assert_eq!(
        session_guid_from_value(&format!("w0:t1:{guid}")),
        Some(guid.to_string())
    );
    assert_eq!(
        session_guid_from_value("w0t0p0:00112233445546778899AABBCCDDEEFF"),
        Some(guid.to_string())
    );
    assert_eq!(session_guid_from_value(&format!("{guid}:w0")), None);
    assert_eq!(session_guid_from_value(""), None);
}

#[test]
fn the_first_value_that_names_a_session_counts() {
    let guid = "00112233-4455-4677-8899-aabbccddeeff".to_string();
    let other = "ffffffff-4455-4677-8899-aabbccddeeff".to_string();
    assert_eq!(
        first_session_guid(&vec!["none".to_string(), guid.clone(), other]),
        Some(guid)
    );
    assert_eq!(first_session_guid(&vec!["none".to_string()]), None);
    assert_eq!(first_session_guid(&Vec::new()), None);
}

#[test]
fn a_socket_is_named_by_process_and_instance() {
    assert_eq!(
        socket_file_name(4_096, INSTANCE),
        "4096-00112233-4455-4677-8899-aabbccddeeff.sock"
    );
    assert_eq!(
        socket_file_name(0, 0),
        "0-00000000-0000-0000-0000-000000000000.sock"
    );
}
