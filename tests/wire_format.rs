use dialectic::backoff::{after_failed_attempt, backoff_delay_ms, ConnectStep, MAX_CONNECT_ATTEMPTS};
use dialectic::wire::{decode_line, frame_line, new_envelope, strip_terminator, IPCMessageType};

const ALL: [IPCMessageType; 11] = [
    IPCMessageType::PresentReview,
    IPCMessageType::Log,
    IPCMessageType::GetSelection,
    IPCMessageType::Marco,
    IPCMessageType::Polo,
    IPCMessageType::Goodbye,
    IPCMessageType::Response,
    IPCMessageType::ResolveSymbolByName,
    IPCMessageType::FindAllReferences,
    IPCMessageType::CreateSyntheticPr,
    IPCMessageType::UserFeedback,
];

#[test]
fn kind_names_round_trip() {
    for k in ALL {
        assert_eq!(IPCMessageType::from_wire_name(k.wire_name()), Some(k));
    }
    assert_eq!(IPCMessageType::PresentReview.wire_name(), "present_review");
    assert_eq!(IPCMessageType::ResolveSymbolByName.wire_name(), "resolve_symbol_by_name");
    assert_eq!(IPCMessageType::from_wire_name("response"), Some(IPCMessageType::Response));
}

#[test]
fn unknown_kind_names_are_rejected() {
    assert_eq!(IPCMessageType::from_wire_name("Response"), None);
    assert_eq!(IPCMessageType::from_wire_name("present-review"), None);
    assert_eq!(IPCMessageType::from_wire_name(""), None);
}

#[test]
fn lines_are_framed_and_unframed() {
    assert_eq!(frame_line("{\"id\":\"r1\"}"), "{\"id\":\"r1\"}\n");
    assert_eq!(frame_line(""), "\n");
    assert_eq!(strip_terminator(b"abc\n".to_vec()), b"abc".to_vec());
    assert_eq!(strip_terminator(b"abc".to_vec()), b"abc".to_vec());
    assert_eq!(strip_terminator(Vec::new()), Vec::<u8>::new());
    assert_eq!(decode_line("h\u{e9}\n".as_bytes().to_vec()), Some("h\u{e9}".to_string()));
}

#[test]
fn invalid_utf8_lines_are_skipped() {
    assert_eq!(decode_line(vec![0x66, 0xff, 0x0a]), None);
}

#[test]
fn envelopes_get_fresh_uuid_ids() {
    let a = new_envelope(IPCMessageType::Polo, 77, serde_json::Value::Null);
    let b = new_envelope(IPCMessageType::Polo, 77, serde_json::Value::Null);
    assert_eq!(a.message_type, IPCMessageType::Polo);
    assert_eq!(a.shell_pid, 77);
    assert_eq!(a.id.len(), 36);
    assert!(uuid::Uuid::parse_str(&a.id).is_ok());
    assert_ne!(a.id, b.id);
}

#[test]
fn backoff_doubles_from_one_hundred_ms() {
    let delays: Vec<u64> = (1..=MAX_CONNECT_ATTEMPTS).map(backoff_delay_ms).collect();
    assert_eq!(delays, vec![100, 200, 400, 800, 1600]);
    assert_eq!(after_failed_attempt(1), ConnectStep::RetryAfter(100));
    assert_eq!(after_failed_attempt(4), ConnectStep::RetryAfter(800));
    assert_eq!(after_failed_attempt(5), ConnectStep::GiveUp);
}
