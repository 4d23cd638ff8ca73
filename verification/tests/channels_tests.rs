use ai_bridge::channels::{
    handshake_line, parse_handshake_line, validate_payload, validate_peer_uid,
    verify_handshake_token, ChannelEnvelope, ChannelError, ChannelName, SecureToken,
};
use ai_bridge::json::{forbidden_identity_field, JsonValue};
use nix::unistd::getuid;

fn obj(entries: Vec<(&str, JsonValue)>) -> JsonValue {
    JsonValue::Object(entries.into_iter().map(|(k, v)| (k.to_string(), v)).collect())
}

fn s(v: &str) -> JsonValue {
    JsonValue::Str(v.to_string())
}

#[test]
fn channel_names_map_to_expected_socket_files() {
    assert_eq!(ChannelName::PrivateA.as_str(), "private_a.sock");
    assert_eq!(ChannelName::PrivateB.as_str(), "private_b.sock");
    assert_eq!(ChannelName::PublicMaestro.as_str(), "public_maestro.sock");
}

#[test]
fn payload_validation_rejects_sender_and_auth_token_fields() {
    let valid = obj(vec![("task", s("ok")), ("payload", obj(vec![("value", JsonValue::Number("42".to_string()))]))]);
    assert!(validate_payload(&valid).is_ok());

    let sender = obj(vec![("task", s("bad")), ("sender", s("maestro"))]);
    assert!(matches!(validate_payload(&sender), Err(ChannelError::ForbiddenField { field: "sender" })));

    let token = obj(vec![("task", s("bad")), ("auth_token", s("secret"))]);
    assert!(matches!(validate_payload(&token), Err(ChannelError::ForbiddenField { field: "auth_token" })));

    let nested = obj(vec![("task", s("bad")), ("meta", obj(vec![("sender", s("nested"))]))]);
    assert!(matches!(validate_payload(&nested), Err(ChannelError::ForbiddenField { field: "sender" })));
}

#[test]
fn identity_fields_are_found_inside_arrays_and_sender_wins() {
    let in_array = JsonValue::Array(vec![JsonValue::Null, obj(vec![("auth_token", s("x"))])]);
    assert_eq!(forbidden_identity_field(&in_array), Some("auth_token"));
    let both = obj(vec![("auth_token", s("x")), ("sender", s("y"))]);
    assert_eq!(forbidden_identity_field(&both), Some("sender"));
    assert_eq!(forbidden_identity_field(&JsonValue::Bool(true)), None);
}

#[test]
fn peer_uid_validation_matches_registered_uid() {
    let expected = getuid().as_raw() as u32;
    assert!(validate_peer_uid(expected, expected).is_ok());
    assert!(matches!(
        validate_peer_uid(expected, expected + 1),
        Err(ChannelError::PeerUidMismatch { expected: _, actual: _ })
    ));
}

#[test]
fn secure_token_is_unique_per_generated_instance() {
    let a = SecureToken::generate().unwrap();
    let b = SecureToken::generate().unwrap();
    assert_ne!(a, b);
    assert_eq!(a.as_str().len(), 64);
    assert!(a.as_str().chars().all(|c| c.is_ascii_hexdigit() && !c.is_ascii_uppercase()));
}

#[test]
fn handshake_line_round_trips_and_checks_the_token() {
    let line = handshake_line("abc123");
    assert_eq!(line, "AI_BRIDGE_TOKEN:abc123\n");
    assert_eq!(parse_handshake_line(&line), Ok("abc123".to_string()));
    assert_eq!(parse_handshake_line("AI_BRIDGE_TOKEN:tok \r\n"), Ok("tok".to_string()));
    assert_eq!(
        parse_handshake_line("hello"),
        Err(ChannelError::HandshakeRead("malformed handshake: missing token prefix".to_string()))
    );
    assert!(verify_handshake_token("abc", "abc").is_ok());
    assert_eq!(verify_handshake_token("abc", "abd"), Err(ChannelError::HandshakeMismatch));
    assert_eq!(ChannelName::all().len(), 3);
}

#[test]
fn uid_mismatch_is_rejected_directly() {
    // Direct check that a different UID is rejected (the kernel-level gate).
    let mine = getuid().as_raw() as u32;
    let other = if mine == 65534 { 0 } else { 65534 };
    assert!(validate_peer_uid(mine, mine).is_ok());
    assert!(matches!(validate_peer_uid(mine, other), Err(ChannelError::PeerUidMismatch { .. })));
}

#[test]
fn channel_errors_explain_themselves() {
    assert_eq!(
        ChannelError::PeerUidMismatch { expected: 1000, actual: 0 }.message(),
        "socket was created for UID 1000, but peer UID was 0"
    );
    assert_eq!(
        ChannelError::HandshakeMismatch.message(),
        "secure token handshake failed: supplied token does not match the registered one for this channel"
    );
    assert_eq!(
        ChannelError::ForbiddenField { field: "sender" }.message(),
        "message payload contains a forbidden identity field: sender"
    );
    assert_eq!(
        ChannelError::SocketBind { path: "/run/a.sock".to_string(), source: "busy".to_string() }.message(),
        "failed to bind socket at /run/a.sock: busy"
    );
}

#[test]
fn envelopes_refuse_bad_text_and_identity_fields() {
    use_envelope();
}

fn use_envelope() {
    let ok = ChannelEnvelope::from_json_str(r#"{"task_id":"t1","prompt":"hi"}"#).expect("valid payload");
    assert!(matches!(ok.payload, JsonValue::Object(ref e) if e.len() == 2));
    assert!(matches!(ChannelEnvelope::from_json_str("not json"), Err(ChannelError::Json(_))));
    assert!(matches!(
        ChannelEnvelope::from_json_str(r#"{"payload":{"sender":"maestro"}}"#),
        Err(ChannelError::ForbiddenField { field: "sender" })
    ));
    assert!(matches!(
        ChannelEnvelope::from_json_str(r#"[{"auth_token":"x"}]"#),
        Err(ChannelError::ForbiddenField { field: "auth_token" })
    ));
}
