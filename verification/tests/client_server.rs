use kenv_core::cli::{
    escape_value, format_cli_error, render_key_listing, render_slot_listing, render_status,
};
use kenv_core::framing::{frame_message, message_length, MAX_MESSAGE_LEN};
use kenv_core::handlers::{
    connection_accepted, handle_create, handle_list_keys, handle_list_slots, handle_lock,
    handle_reauth_password, handle_remove_slot, handle_status, handle_unlock, remove_vault_slot,
    unknown_method_message, RequestMethod, MAX_CONCURRENT_CONNECTIONS,
};
use kenv_core::ipc::{IpcClient, IpcError, KeyInfo, SlotInfo};
use kenv_core::slots::{SlotType, Timestamp, UnlockSlot};
use kenv_core::vault::VaultPayload;
use kenv_core::{KenvError, VaultState, VaultStatus};

#[test]
fn connection_limit_enforced() {
    let mut counter = MAX_CONCURRENT_CONNECTIONS;
    if connection_accepted(counter) {
        counter += 1;
    }
    assert_eq!(counter, MAX_CONCURRENT_CONNECTIONS, "counter must be restored to limit after rejection");
}

#[test]
fn connections_below_the_limit_are_served() {
    assert!(connection_accepted(0));
    assert!(connection_accepted(MAX_CONCURRENT_CONNECTIONS - 1));
    assert!(!connection_accepted(MAX_CONCURRENT_CONNECTIONS + 3));
}

#[test]
fn render_status_formats_success_output() {
    let output = render_status(|| Ok(VaultStatus::Unlocked)).unwrap();
    assert_eq!(output, "vault_status=unlocked");
}

#[test]
fn render_status_returns_core_error() {
    let error = render_status(|| Err(KenvError::UnlockFailed)).unwrap_err();
    assert_eq!(error.to_string(), "unlock failed");
}

#[test]
fn format_cli_error_uses_expected_prefix() {
    let message = format_cli_error(&KenvError::UnlockFailed.to_string());
    assert_eq!(message, "error=unlock failed");
}

#[test]
fn create_vault_outputs_locked_status() {
    let output = render_status(|| Ok(VaultStatus::Locked)).unwrap();
    assert_eq!(output, "vault_status=locked");
}

#[test]
fn escape_value_handles_newline_and_backslash() {
    assert_eq!(escape_value("plain"), "plain");
    assert_eq!(escape_value("line1\nline2"), "line1\\nline2");
    assert_eq!(escape_value("a\r\nb"), "a\\r\\nb");
    assert_eq!(escape_value("back\\slash"), "back\\\\slash");
    assert_eq!(escape_value("mix\n\\end"), "mix\\n\\\\end");
}

#[test]
fn status_lines_for_every_status() {
    assert_eq!(render_status(|| Ok(VaultStatus::Missing)).unwrap(), "vault_status=missing");
    assert_eq!(render_status(|| Ok(VaultStatus::Corrupted)).unwrap(), "vault_status=corrupted");
}

#[test]
fn slot_listing_lines() {
    let slots = vec![
        SlotInfo {
            slot_id: 1,
            slot_type: "Password".to_string(),
            label: "password".to_string(),
            last_used: None,
            disabled: false,
        },
        SlotInfo {
            slot_id: 12,
            slot_type: "Ctap2".to_string(),
            label: "two\nlines".to_string(),
            last_used: Some(5),
            disabled: true,
        },
    ];
    let lines = render_slot_listing(&slots);
    assert_eq!(
        lines,
        vec![
            "slot_count=2",
            "slot_id=1",
            "slot_type=Password",
            "slot_label=password",
            "slot_id=12",
            "slot_type=Ctap2",
            "slot_label=two\\nlines",
        ]
    );
    assert_eq!(render_slot_listing(&[]), vec!["slot_count=0"]);
}

#[test]
fn key_listing_lines() {
    let keys = vec![KeyInfo { key_id: "ed25519".to_string(), name: "work\\laptop".to_string() }];
    assert_eq!(
        render_key_listing(&keys),
        vec!["key_count=1", "key_id=ed25519", "key_name=work\\\\laptop"]
    );
}

#[test]
fn response_failed_read_timeout_is_not_socket_unavailable() {
    let err = IpcError::ResponseFailed("failed to read response: timed out".into());

    assert!(!err.is_socket_unavailable());
    assert!(!matches!(err, IpcError::SocketUnavailable(_)));
}

#[test]
fn response_failed_empty_response_is_not_socket_unavailable() {
    let err = IpcError::ResponseFailed("no response from socket server".into());

    assert!(!err.is_socket_unavailable());
    assert!(!matches!(err, IpcError::SocketUnavailable(_)));
}

#[test]
fn response_failed_malformed_json_is_not_socket_unavailable() {
    let err = IpcError::ResponseFailed(
        "failed to parse response: expected value at line 1 column 0".into(),
    );

    assert!(!err.is_socket_unavailable());
    assert!(!matches!(err, IpcError::SocketUnavailable(_)));
}

#[test]
fn request_failed_write_timeout_is_not_socket_unavailable() {
    let err = IpcError::RequestFailed("failed to send request: timed out".into());

    assert!(!err.is_socket_unavailable());
    assert!(!matches!(err, IpcError::SocketUnavailable(_)));
}

#[test]
fn request_failed_socket_config_error_is_not_socket_unavailable() {
    let err = IpcError::RequestFailed("socket error: Operation not supported".into());

    assert!(!err.is_socket_unavailable());
    assert!(!matches!(err, IpcError::SocketUnavailable(_)));
}

#[test]
fn socket_unavailable_is_safe_to_fallback() {
    let err = IpcError::SocketUnavailable("socket not found or not accessible".into());

    assert!(err.is_socket_unavailable());
    assert!(matches!(err, IpcError::SocketUnavailable(_)));
}

#[test]
fn socket_unavailable_on_connect_failure_is_safe_to_fallback() {
    let err = IpcError::SocketUnavailable("desktop app not running or socket inaccessible".into());

    assert!(err.is_socket_unavailable());
    assert!(matches!(err, IpcError::SocketUnavailable(_)));
}

#[test]
fn remote_error_vault_already_exists_is_not_socket_unavailable() {
    let err = IpcError::RemoteError("vault already exists".into());

    assert!(!err.is_socket_unavailable());
    assert!(!matches!(err, IpcError::SocketUnavailable(_)));
}

#[test]
fn remote_error_weak_password_is_not_socket_unavailable() {
    let err = IpcError::RemoteError("password must not be empty".into());

    assert!(!err.is_socket_unavailable());
    assert!(!matches!(err, IpcError::SocketUnavailable(_)));
}

#[test]
fn all_error_types_are_classified() {
    let socket_unavailable = IpcError::SocketUnavailable("test".into());
    let request_failed = IpcError::RequestFailed("test".into());
    let response_failed = IpcError::ResponseFailed("test".into());
    let remote_error = IpcError::RemoteError("test".into());

    assert!(matches!(socket_unavailable, IpcError::SocketUnavailable(_)));
    assert!(matches!(request_failed, IpcError::RequestFailed(_)));
    assert!(matches!(response_failed, IpcError::ResponseFailed(_)));
    assert!(matches!(remote_error, IpcError::RemoteError(_)));
}

#[test]
fn error_display_impl_works_for_all_types() {
    let socket_unavailable = IpcError::SocketUnavailable("socket error".into());
    let request_failed = IpcError::RequestFailed("write error".into());
    let response_failed = IpcError::ResponseFailed("read error".into());
    let remote_error = IpcError::RemoteError("business error".into());

    assert_eq!(socket_unavailable.to_string(), "socket error");
    assert_eq!(request_failed.to_string(), "write error");
    assert_eq!(response_failed.to_string(), "read error");
    assert_eq!(remote_error.to_string(), "business error");
}

#[test]
fn socket_unavailable_error_should_trigger_local_fallback() {
    let err = IpcError::SocketUnavailable("desktop not running".into());
    assert!(err.is_socket_unavailable());
}

#[test]
fn remote_error_should_not_trigger_fallback() {
    let err = IpcError::RemoteError("vault already exists".into());
    assert!(!err.is_socket_unavailable());
    assert!(err.to_string().contains("vault"));
}

#[test]
fn request_failed_should_not_trigger_fallback() {
    let err = IpcError::RequestFailed("write timeout".into());
    assert!(!err.is_socket_unavailable());
}

#[test]
fn response_failed_should_not_trigger_fallback() {
    let err = IpcError::ResponseFailed("read timeout".into());
    assert!(!err.is_socket_unavailable());
}

#[test]
fn vault_creation_scenario_success_response_fails() {
    let response_transmission_failed =
        IpcError::ResponseFailed("failed to read response: Connection reset by peer".into());

    assert!(
        !response_transmission_failed.is_socket_unavailable(),
        "ResponseFailed must NOT trigger local fallback - vault likely exists on desktop"
    );

    let error_msg = response_transmission_failed.to_string();
    assert!(
        error_msg.contains("read response") || error_msg.contains("Connection"),
        "Error message must indicate transmission failure, not creation failure"
    );
}

#[test]
fn vault_creation_scenario_empty_response() {
    let empty_response = IpcError::ResponseFailed("no response from socket server".into());
    assert!(
        !empty_response.is_socket_unavailable(),
        "Empty response MUST NOT trigger local fallback - vault likely exists"
    );
}

#[test]
fn socket_unavailable_and_response_failed_are_different() {
    let socket_unavailable = IpcError::SocketUnavailable("missing".into());
    let response_failed = IpcError::ResponseFailed("read failed".into());

    assert!(matches!(socket_unavailable, IpcError::SocketUnavailable(_)));
    assert!(matches!(response_failed, IpcError::ResponseFailed(_)));

    assert!(socket_unavailable.is_socket_unavailable());
    assert!(!response_failed.is_socket_unavailable());
}

#[test]
fn request_failed_and_response_failed_are_different() {
    let request_failed = IpcError::RequestFailed("write failed".into());
    let response_failed = IpcError::ResponseFailed("read failed".into());

    assert!(matches!(request_failed, IpcError::RequestFailed(_)));
    assert!(matches!(response_failed, IpcError::ResponseFailed(_)));

    assert!(!request_failed.is_socket_unavailable());
    assert!(!response_failed.is_socket_unavailable());
}

#[test]
fn ipc_error_socket_unavailable_variant_exists() {
    let err = IpcError::SocketUnavailable("test".into());
    assert!(matches!(err, IpcError::SocketUnavailable(_)));
}

#[test]
fn ipc_error_remote_error_variant_exists() {
    let err = IpcError::RemoteError("test".into());
    assert!(matches!(err, IpcError::RemoteError(_)));
}

#[test]
fn ipc_error_request_failed_variant_exists() {
    let err = IpcError::RequestFailed("test".into());
    assert!(matches!(err, IpcError::RequestFailed(_)));
}

#[test]
fn ipc_error_response_failed_variant_exists() {
    let err = IpcError::ResponseFailed("test".into());
    assert!(matches!(err, IpcError::ResponseFailed(_)));
}

#[test]
fn ipc_error_display_formats_correctly() {
    let unavailable = IpcError::SocketUnavailable("socket not found".into());
    assert_eq!(unavailable.to_string(), "socket not found");

    let remote = IpcError::RemoteError("vault already exists".into());
    assert_eq!(remote.to_string(), "vault already exists");

    let request_failed = IpcError::RequestFailed("write timeout".into());
    assert_eq!(request_failed.to_string(), "write timeout");

    let response_failed = IpcError::ResponseFailed("parse failed".into());
    assert_eq!(response_failed.to_string(), "parse failed");
}

#[test]
fn ipc_error_contains_method_works() {
    let unavailable = IpcError::SocketUnavailable("desktop app not running".into());
    assert!(unavailable.contains("not running"));
    assert!(unavailable.contains("desktop"));
    assert!(!unavailable.contains("vault"));

    let remote = IpcError::RemoteError("vault already exists".into());
    assert!(remote.contains("already exists"));
    assert!(!remote.contains("socket"));

    let request_failed = IpcError::RequestFailed("write timeout".into());
    assert!(request_failed.contains("write"));
    assert!(!request_failed.contains("response"));

    let response_failed = IpcError::ResponseFailed("no response from server".into());
    assert!(response_failed.contains("no response"));
    assert!(!response_failed.contains("created"));
}

#[test]
fn ipc_error_clone_works() {
    let original = IpcError::SocketUnavailable("test".into());
    let cloned = original.clone();

    assert_eq!(original.to_string(), cloned.to_string());
    assert!(cloned.contains("test"));
}

#[test]
fn reply_outcome_classifies_replies() {
    assert!(IpcClient::reply_outcome(true, None).is_ok());
    match IpcClient::reply_outcome(false, Some("vault already exists".to_string())) {
        Err(IpcError::RemoteError(m)) => assert_eq!(m, "vault already exists"),
        other => panic!("unexpected {other:?}"),
    }
    match IpcClient::reply_outcome(false, None) {
        Err(IpcError::RemoteError(m)) => assert_eq!(m, "unknown error"),
        other => panic!("unexpected {other:?}"),
    }
}

#[test]
fn missing_results_are_response_failures() {
    match IpcClient::required_result::<u8>(None) {
        Err(IpcError::ResponseFailed(m)) => assert_eq!(m, "no result in response"),
        other => panic!("unexpected {other:?}"),
    }
    assert_eq!(IpcClient::required_result(Some(7u8)).unwrap(), 7);
    match IpcClient::status_result(None) {
        Err(IpcError::ResponseFailed(m)) => assert_eq!(m, "no status result in response"),
        other => panic!("unexpected {other:?}"),
    }
    assert_eq!(IpcClient::status_result(Some("locked".to_string())).unwrap(), "locked");
}

#[test]
fn frames_carry_their_length() {
    let framed = frame_message(b"hello");
    assert_eq!(framed, vec![0, 0, 0, 5, b'h', b'e', b'l', b'l', b'o']);
    let header: [u8; 4] = framed[0..4].try_into().unwrap();
    assert_eq!(message_length(&header).unwrap(), 5);
}

#[test]
fn frame_lengths_out_of_range_are_refused() {
    assert_eq!(message_length(&[0, 0, 0, 0]).unwrap_err(), "invalid message length: 0");
    let over = (MAX_MESSAGE_LEN as u32 + 1).to_be_bytes();
    assert_eq!(message_length(&over).unwrap_err(), "invalid message length: 104857601");
    let at_limit = (MAX_MESSAGE_LEN as u32).to_be_bytes();
    assert_eq!(message_length(&at_limit).unwrap(), MAX_MESSAGE_LEN);
    assert_eq!(
        message_length(&[0xFF, 0xFF, 0xFF, 0xFF]).unwrap_err(),
        "invalid message length: 4294967295"
    );
}

#[test]
fn request_methods_are_recognised() {
    assert_eq!(RequestMethod::parse("unlock"), Some(RequestMethod::Unlock));
    assert_eq!(RequestMethod::parse("list_slots"), Some(RequestMethod::ListSlots));
    assert_eq!(RequestMethod::parse("list_keys"), Some(RequestMethod::ListKeys));
    assert_eq!(RequestMethod::parse("remove_slot"), Some(RequestMethod::RemoveSlot));
    assert_eq!(RequestMethod::parse("reauth_password"), Some(RequestMethod::ReauthPassword));
    assert_eq!(RequestMethod::parse("status"), Some(RequestMethod::Status));
    assert_eq!(RequestMethod::parse("lock"), Some(RequestMethod::Lock));
    assert_eq!(RequestMethod::parse("create"), Some(RequestMethod::Create));
    assert_eq!(RequestMethod::parse("Unlock"), None);
    assert_eq!(RequestMethod::parse(""), None);
    assert_eq!(unknown_method_message("frobnicate"), "unknown method: frobnicate");
}

#[test]
fn state_changing_requests() {
    assert!(RequestMethod::Unlock.changes_state());
    assert!(RequestMethod::RemoveSlot.changes_state());
    assert!(RequestMethod::Lock.changes_state());
    assert!(RequestMethod::Create.changes_state());
    assert!(!RequestMethod::Status.changes_state());
    assert!(!RequestMethod::ListSlots.changes_state());
    assert!(!RequestMethod::ListKeys.changes_state());
    assert!(!RequestMethod::ReauthPassword.changes_state());
}

#[test]
fn handler_replies() {
    assert_eq!(handle_unlock(Ok(VaultStatus::Unlocked)).unwrap(), "ok");
    assert_eq!(handle_unlock(Err(KenvError::UnlockFailed)).unwrap_err(), "unlock failed");
    assert_eq!(handle_reauth_password(Ok(())).unwrap(), "ok");
    assert_eq!(handle_remove_slot(Ok(())).unwrap(), "ok");
    assert_eq!(
        handle_remove_slot(Err(KenvError::UnlockFailed)).unwrap_err(),
        "reauthentication_required"
    );
    assert_eq!(
        handle_remove_slot(Err(KenvError::LastPasswordSlot)).unwrap_err(),
        "cannot remove the last password slot"
    );
    assert_eq!(handle_status(Ok(VaultStatus::Locked)).unwrap(), "locked");
    assert_eq!(handle_status(Err(KenvError::VaultMissing)).unwrap_err(), "vault does not exist");
    assert_eq!(handle_create(Ok(())).unwrap(), "vault_status=locked");
    assert_eq!(handle_create(Err(KenvError::WeakPassword)).unwrap_err(), "password must not be empty");
    let mut state = VaultState::new();
    assert_eq!(handle_lock(&mut state).unwrap(), "ok");
}

#[test]
fn listing_handlers() {
    let mut state = VaultState::new();
    assert_eq!(handle_list_slots(&state).unwrap_err(), "vault is locked");
    assert_eq!(handle_list_keys(&state).unwrap_err(), "vault is locked");

    let mut payload = VaultPayload::new();
    payload.slots.push(UnlockSlot {
        slot_id: 3,
        slot_type: SlotType::TouchId,
        label: "finger".to_string(),
        created_at: Timestamp { secs: 10, nanos: 0 },
        password: None,
        ctap2: None,
        touchid: None,
        requires_pin: false,
        requires_touch: false,
        pin_attempts_left: None,
        last_used: Some(Timestamp { secs: 1_700_000_000, nanos: 5 }),
        disabled: true,
    });
    state.payload = Some(payload);
    let listed = handle_list_slots(&state).unwrap();
    assert_eq!(listed.slots.len(), 1);
    assert_eq!(listed.slots[0].slot_id, 3);
    assert_eq!(listed.slots[0].slot_type, "TouchId");
    assert_eq!(listed.slots[0].label, "finger");
    assert_eq!(listed.slots[0].last_used, Some(1_700_000_000));
    assert!(listed.slots[0].disabled);
    assert!(handle_list_keys(&state).unwrap().keys.is_empty());
}

#[test]
fn ipc_error_is_error_trait_implemented() {
    // The error's text is what the application's `std::error::Error` copy of
    // this type displays.
    let err = IpcError::RemoteError("test error".into());
    assert_eq!(err.to_string(), "test error");
}

#[test]
fn desktop_slot_removal_answers() {
    assert_eq!(remove_vault_slot(Ok(())), Ok(true));
    assert_eq!(
        remove_vault_slot(Err(KenvError::UnlockFailed)),
        Err("reauthentication_required".to_string())
    );
    assert_eq!(
        remove_vault_slot(Err(KenvError::VaultLocked)),
        Err("vault is locked".to_string())
    );
}

#[test]
fn escaped_values_stay_on_one_line() {
    let escaped = escape_value("a\r\nb\rc\n\\");
    assert!(!escaped.contains('\n') && !escaped.contains('\r'));
    assert_eq!(escaped, "a\\r\\nb\\rc\\n\\\\");
}
