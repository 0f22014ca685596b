use daly_bms::remootio::device::{
    command_plaintext, frame_message, Command, Event, Session, SessionMessage,
};
use daly_bms::remootio::protocol::{
    action_json, build_encrypted_frame, decode_base64_key, decode_hex_key, decrypt_frame,
    next_action_id, ProtocolError,
};
use daly_bms::remootio::topics::{command_for_payload, parse_command_topic, state_payload, topic_base};

fn test_keys() -> ([u8; 32], [u8; 32]) {
    ([0x11; 32], [0x22; 32])
}

#[test]
fn roundtrip_encrypt_decrypt() {
    let (session_key, auth_key) = test_keys();
    let plaintext = r#"{"action":{"type":"QUERY","id":1}}"#;
    let frame = build_encrypted_frame(&session_key, &auth_key, plaintext).unwrap();
    assert_eq!(frame.frame_type, "ENCRYPTED");
    let decrypted = decrypt_frame(&frame, &session_key, &auth_key).unwrap();
    assert_eq!(decrypted["action"]["type"], "QUERY");
    assert_eq!(decrypted["action"]["id"], 1);
}

#[test]
fn mac_mismatch_rejected_with_wrong_auth_key() {
    let (session_key, auth_key) = test_keys();
    let wrong_auth_key: [u8; 32] = [0x33; 32];
    let plaintext = r#"{"action":{"type":"TRIGGER","id":5}}"#;
    let frame = build_encrypted_frame(&session_key, &auth_key, plaintext).unwrap();
    let result = decrypt_frame(&frame, &session_key, &wrong_auth_key);
    assert!(matches!(result, Err(ProtocolError::MacMismatch)));
}

#[test]
fn wrong_session_key_fails_to_decrypt_or_parse() {
    let (session_key, auth_key) = test_keys();
    let wrong_session_key: [u8; 32] = [0x44; 32];
    let plaintext = r#"{"action":{"type":"TRIGGER","id":5}}"#;
    let frame = build_encrypted_frame(&session_key, &auth_key, plaintext).unwrap();
    let result = decrypt_frame(&frame, &wrong_session_key, &auth_key);
    assert!(result.is_err());
}

#[test]
fn mac_matches_serde_json_rendering() {
    // The MAC is computed over the JSON text of {iv, payload}; a frame whose
    // fields need escaping still verifies against itself.
    let (session_key, auth_key) = test_keys();
    let mut frame = build_encrypted_frame(&session_key, &auth_key, "{}").unwrap();
    frame.frame_type = "PLAIN".into();
    assert!(matches!(decrypt_frame(&frame, &session_key, &auth_key), Err(ProtocolError::NotEncrypted)));
}

#[test]
fn next_action_id_wraps_at_0x7fffffff() {
    assert_eq!(next_action_id(0x7fff_fffe), 0x7fff_ffff % 0x7fff_ffff);
    assert_eq!(next_action_id(0), 1);
}

#[test]
fn action_json_without_duration() {
    assert_eq!(action_json("QUERY", 42, None), r#"{"action":{"type":"QUERY","id":42}}"#);
}

#[test]
fn action_json_with_duration() {
    assert_eq!(
        action_json("TRIGGER_SECONDARY", 7, Some(3)),
        r#"{"action":{"type":"TRIGGER_SECONDARY","id":7,"duration":3}}"#
    );
}

#[test]
fn decode_hex_key_rejects_wrong_length() {
    assert!(matches!(decode_hex_key("abcd"), Err(ProtocolError::InvalidLength)));
}

#[test]
fn decode_hex_key_accepts_64_char_hexstring() {
    let key = "11".repeat(32);
    assert_eq!(decode_hex_key(&key).unwrap(), [0x11u8; 32]);
}

#[test]
fn decode_hex_key_variants() {
    let key = format!("  {}\n", "aB".repeat(32));
    assert_eq!(decode_hex_key(&key).unwrap(), [0xabu8; 32]);
    assert!(matches!(decode_hex_key("abc"), Err(ProtocolError::Hex(_))));
    assert!(matches!(decode_hex_key("zz"), Err(ProtocolError::Hex(_))));
}

#[test]
fn base64_keys() {
    let k = "ERERERERERERERERERERERERERERERERERERERERERE=";
    assert_eq!(decode_base64_key(k).unwrap(), [0x11u8; 32]);
    assert!(matches!(decode_base64_key("AAAA"), Err(ProtocolError::InvalidLength)));
    assert!(matches!(decode_base64_key("!!"), Err(ProtocolError::Base64(_))));
}

#[test]
fn command_topics() {
    assert_eq!(topic_base("portail"), "santuario/remootio/portail");
    assert_eq!(parse_command_topic("santuario/remootio/portail/set"), Some(("portail", false)));
    assert_eq!(parse_command_topic("santuario/remootio/portail/secondary/set"), Some(("portail", true)));
    assert_eq!(parse_command_topic("santuario/remootio//set"), Some(("", false)));
    assert_eq!(parse_command_topic("santuario/remootio/a/b/set"), None);
    assert_eq!(parse_command_topic("santuario/remootio/portail/state"), None);
}

#[test]
fn payload_commands() {
    assert_eq!(command_for_payload(false, " OPEN\n"), Some(Command::Open));
    assert_eq!(command_for_payload(false, "close"), Some(Command::Close));
    assert_eq!(command_for_payload(false, "query"), Some(Command::Query));
    assert_eq!(command_for_payload(false, "On"), Some(Command::Trigger));
    assert_eq!(command_for_payload(false, "1"), Some(Command::Trigger));
    assert_eq!(command_for_payload(false, "off"), None);
    assert_eq!(command_for_payload(false, "bogus"), None);
    assert_eq!(command_for_payload(true, "TRUE"), Some(Command::TriggerSecondary));
    assert_eq!(command_for_payload(true, "open"), None);
    assert_eq!(command_for_payload(true, "0"), None);
}

#[test]
fn state_payloads() {
    assert_eq!(state_payload("open", 1720000000), r#"{"state":"open","ts":1720000000}"#);
    let v: serde_json::Value = serde_json::from_str(&state_payload("a\"b\n", 5)).unwrap();
    assert_eq!(v["state"], "a\"b\n");
    assert_eq!(v["ts"], 5);
}

#[test]
fn session_authenticates_after_challenge_and_query() {
    let mut s = Session::new();
    let (need, ev) = s.on_message(SessionMessage::Challenge {
        session_key_b64: Some("ERERERERERERERERERERERERERERERERERERERERERE=".into()),
        initial_action_id: Some(41),
    });
    assert!(need && ev.is_empty());
    assert_eq!(s.session_key, Some([0x11; 32]));
    assert_eq!(s.last_action_id, Some(41));
    assert_eq!(command_plaintext(Command::Query, 41), r#"{"action":{"type":"QUERY","id":42}}"#);
    let (need, ev) = s.on_message(SessionMessage::Response { id: Some(42), is_query: true, state: Some("closed".into()) });
    assert!(!need);
    assert!(s.authenticated);
    assert_eq!(s.last_action_id, Some(42));
    assert!(matches!(ev[0], Event::Authenticated));
    assert!(matches!(&ev[1], Event::State(st) if st == "closed"));
    let (_, ev) = s.on_message(SessionMessage::Response { id: Some(7), is_query: false, state: None });
    assert!(ev.is_empty());
    assert_eq!(s.last_action_id, Some(42));
    let (_, ev) = s.on_message(SessionMessage::StateChange { state: Some("open".into()) });
    assert!(matches!(&ev[0], Event::State(st) if st == "open"));
    let mut w = Session::new();
    w.last_action_id = Some(0x7fff_ffff);
    w.on_message(SessionMessage::Response { id: Some(0), is_query: false, state: None });
    assert_eq!(w.last_action_id, Some(0));
    let mut bad = Session::new();
    let (need, _) = bad.on_message(SessionMessage::Challenge { session_key_b64: Some("AAAA".into()), initial_action_id: None });
    assert!(!need);
    assert_eq!(bad.session_key, None);
}

#[test]
fn frames_read_as_session_messages() {
    let (k, a) = test_keys();
    let read = |text: &str| {
        let f = build_encrypted_frame(&k, &a, text).unwrap();
        frame_message(&f, &k, &a).unwrap()
    };
    match read(r#"{"challenge":{"sessionKey":"abc=","initialActionId":7}}"#) {
        SessionMessage::Challenge { session_key_b64, initial_action_id } => {
            assert_eq!(session_key_b64.as_deref(), Some("abc="));
            assert_eq!(initial_action_id, Some(7));
        }
        m => panic!("unexpected {m:?}"),
    }
    match read(r#"{"response":{"type":"QUERY","id":9,"state":"closed"}}"#) {
        SessionMessage::Response { id, is_query, state } => {
            assert_eq!((id, is_query, state.as_deref()), (Some(9), true, Some("closed")));
        }
        m => panic!("unexpected {m:?}"),
    }
    match read(r#"{"event":{"type":"StateChange","state":"open"}}"#) {
        SessionMessage::StateChange { state } => assert_eq!(state.as_deref(), Some("open")),
        m => panic!("unexpected {m:?}"),
    }
    assert!(matches!(read(r#"{"event":{"type":"LeftOpen"}}"#), SessionMessage::Other));
    assert!(matches!(read("[1,2]"), SessionMessage::Other));
    let f = build_encrypted_frame(&k, &a, "not json").unwrap();
    assert!(matches!(frame_message(&f, &k, &a), Err(ProtocolError::Json(_))));
}
