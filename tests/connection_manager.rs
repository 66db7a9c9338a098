use dialectic::bus::{session_step, SessionAction, SessionEvent};
use dialectic::connection::{dispatch_of, ConnectionState, Dispatch, IPCError, Inbound, Routed, WaitOutcome};
use dialectic::types::{
    empty_selection, review_result, selection_without_data, test_mode_review_result,
    test_mode_selection, ReviewMode,
};
use dialectic::wire::{decode_line, frame_line, IPCMessageType, ResponsePayload};

type State = ConnectionState<&'static str, u32, u32>;

fn reply(success: bool) -> ResponsePayload {
    ResponsePayload { success, error: None, data: None }
}

fn inbound_reply(id: &str, payload: ResponsePayload) -> Inbound<String> {
    Inbound::Reply { id: id.to_string(), payload }
}

#[test]
fn new_manager_is_disconnected() {
    let st: State = ConnectionState::new(42, 7);
    assert!(!st.is_connected());
    assert_eq!(st.owner_id(), 42);
    assert_eq!(st.origin_tag(), 7);
    assert_eq!(st.pending_requests(), 0);
    assert!(matches!(st.writer(), Err(IPCError::NotConnected)));
}

#[test]
fn attach_then_detach_evicts_requests() {
    let mut st: State = ConnectionState::new(42, 7);
    st.attach("socket");
    assert!(st.is_connected());
    assert_eq!(*st.writer().ok().unwrap(), "socket");
    st.register_request("a".to_string(), 1);
    st.register_request("b".to_string(), 2);
    st.register_feedback("review".to_string(), 3);
    assert_eq!(st.detach(), 2);
    assert!(!st.is_connected());
    assert_eq!(st.pending_requests(), 0);
    assert_eq!(st.pending_feedback(), 1);
    // The next connection succeeds without any reinitialization.
    st.attach("socket-2");
    assert!(st.is_connected());
    assert_eq!(*st.writer().ok().unwrap(), "socket-2");
}

#[test]
fn reply_resolves_its_own_slot_once() {
    let mut st: State = ConnectionState::new(1, 2);
    assert!(st.register_request("r1".to_string(), 10).is_none());
    st.register_request("r2".to_string(), 20);
    match st.route(inbound_reply("r2", reply(false))) {
        Routed::Reply { slot, payload } => {
            assert_eq!(slot, 20);
            assert!(!payload.success);
        }
        _ => panic!("reply should resolve r2"),
    }
    assert!(st.is_pending(&"r1".to_string()));
    assert!(!st.is_pending(&"r2".to_string()));
    assert!(matches!(st.route(inbound_reply("r2", reply(true))), Routed::Dropped));
}

#[test]
fn foreign_reply_is_dropped() {
    let mut st: State = ConnectionState::new(1, 2);
    st.register_request("mine".to_string(), 5);
    assert!(matches!(st.route(inbound_reply("theirs", reply(true))), Routed::Dropped));
    assert_eq!(st.pending_requests(), 1);
}

#[test]
fn re_registering_an_id_hands_back_the_old_slot() {
    let mut st: State = ConnectionState::new(1, 2);
    st.register_request("x".to_string(), 1);
    assert_eq!(st.register_request("x".to_string(), 2), Some(1));
    assert_eq!(st.pending_requests(), 1);
}

#[test]
fn timeout_removes_the_slot() {
    let mut st: State = ConnectionState::new(1, 2);
    st.register_request("other".to_string(), 1);
    let before = st.pending_requests();
    let id = "late".to_string();
    st.register_request(id.clone(), 2);
    assert_eq!(st.pending_requests(), before + 1);
    assert!(matches!(st.finish_wait(&id, WaitOutcome::TimedOut), Err(IPCError::Timeout)));
    assert_eq!(st.pending_requests(), before);
    // A reply that arrives after the timeout finds nobody.
    assert!(matches!(st.route(inbound_reply("late", reply(true))), Routed::Dropped));
}

#[test]
fn closed_and_replied_waits() {
    let mut st: State = ConnectionState::new(1, 2);
    let id = "x".to_string();
    assert!(matches!(st.finish_wait(&id, WaitOutcome::Closed), Err(IPCError::ChannelClosed)));
    match st.finish_wait(&id, WaitOutcome::Replied(reply(true))) {
        Ok(p) => assert!(p.success),
        Err(_) => panic!("a reply is returned"),
    }
}

#[test]
fn feedback_resolves_and_closed_feedback_fails() {
    let mut st: State = ConnectionState::new(1, 2);
    st.register_feedback("rev-1".to_string(), 8);
    let ev = Inbound::Feedback { review_id: "rev-1".to_string(), feedback: "looks good".to_string() };
    match st.route(ev) {
        Routed::Feedback { slot, feedback } => {
            assert_eq!(slot, 8);
            assert_eq!(feedback, "looks good");
        }
        _ => panic!("feedback should resolve"),
    }
    st.register_feedback("rev-2".to_string(), 9);
    let id = "rev-2".to_string();
    match st.finish_feedback_wait::<String>(&id, None) {
        Err(IPCError::ConnectionFailed { path, reason }) => {
            assert_eq!(path, "user_feedback");
            assert_eq!(reason, "User feedback channel closed");
        }
        _ => panic!("a dropped feedback slot is a broken pipe"),
    }
    assert_eq!(st.pending_feedback(), 0);
    assert_eq!(st.finish_feedback_wait(&id, Some(3u8)).ok(), Some(3u8));
}

#[test]
fn presence_query_is_answered_with_origin_tag() {
    let mut st: State = ConnectionState::new(1, 4242);
    match st.route(Inbound::<String>::PresenceQuery) {
        Routed::AnnouncePresence { origin_tag } => assert_eq!(origin_tag, 4242),
        _ => panic!("presence query should be answered"),
    }
    assert!(matches!(st.route(Inbound::<String>::Other), Routed::Dropped));
}

#[test]
fn review_results_from_replies() {
    let r = review_result(&reply(true));
    assert!(r.success);
    assert_eq!(r.message.as_deref(), Some("Review successfully displayed"));
    let r = review_result(&reply(false));
    assert!(!r.success);
    assert_eq!(r.message.as_deref(), Some("Unknown error"));
    let r = review_result(&ResponsePayload { success: false, error: Some("boom".to_string()), data: None });
    assert_eq!(r.message.as_deref(), Some("boom"));
}

#[test]
fn test_mode_results() {
    let r = test_mode_review_result();
    assert!(r.success);
    assert!(r.message.unwrap().contains("test mode"));
    let s = test_mode_selection();
    assert!(s.selected_text.is_none());
    assert!(s.message.unwrap().contains("test mode"));
    let s = selection_without_data();
    assert_eq!(s.message.as_deref(), Some("No selection data in response"));
    let s = empty_selection("x".to_string());
    assert!(s.file_path.is_none() && s.start_line.is_none() && s.is_untitled.is_none());
    assert_eq!(ReviewMode::default(), ReviewMode::Replace);
}

fn field<'a>(v: &'a serde_json::Value, key: &str) -> &'a serde_json::Value {
    v.get(key).expect("field present")
}

#[test]
fn end_to_end_present_review_for_owner_42() {
    // Client X of the bus for owner 42 sends a present-review request r1.
    let mut x: ConnectionState<&str, &str, ()> = ConnectionState::new(42, 1);
    x.attach("x-writer");
    x.register_request("r1".to_string(), "x-caller");
    let request = "{\"type\":\"present_review\",\"id\":\"r1\",\"shell_pid\":1,\"payload\":{\"content\":\"hello\"}}";
    let sent = frame_line(request);

    // The daemon publishes the line verbatim and delivers it to every
    // session, X included.
    let published = match session_step(SessionEvent::LineRead(sent)) {
        SessionAction::Publish(t) => t,
        _ => panic!("request should be published"),
    };
    assert_eq!(published, request);
    let delivered = match session_step(SessionEvent::Published(published)) {
        SessionAction::Deliver(t) => t,
        _ => panic!("request should be delivered"),
    };

    // X's reader sees its own request: not a reply, so the slot stays.
    let line = decode_line(delivered.into_bytes()).unwrap();
    let v: serde_json::Value = serde_json::from_str(&line).unwrap();
    let kind = IPCMessageType::from_wire_name(field(&v, "type").as_str().unwrap()).unwrap();
    assert_eq!(kind, IPCMessageType::PresentReview);
    assert_eq!(dispatch_of(kind), Dispatch::Ignore);
    assert!(matches!(x.route(Inbound::<()>::Other), Routed::Dropped));
    assert!(x.is_pending(&"r1".to_string()));

    // The extension answers with a reply carrying id r1 and the payload.
    let answer = "{\"type\":\"response\",\"id\":\"r1\",\"shell_pid\":1,\"payload\":{\"success\":true,\"data\":{\"content\":\"hello\"}}}";
    let published = match session_step(SessionEvent::LineRead(frame_line(answer))) {
        SessionAction::Publish(t) => t,
        _ => panic!("reply should be published"),
    };
    let delivered = match session_step(SessionEvent::Published(published)) {
        SessionAction::Deliver(t) => t,
        _ => panic!("reply should be delivered"),
    };
    let line = decode_line(delivered.into_bytes()).unwrap();
    let v: serde_json::Value = serde_json::from_str(&line).unwrap();
    let kind = IPCMessageType::from_wire_name(field(&v, "type").as_str().unwrap()).unwrap();
    assert_eq!(dispatch_of(kind), Dispatch::Reply);
    let payload = field(&v, "payload");
    let reply = ResponsePayload {
        success: field(payload, "success").as_bool().unwrap(),
        error: None,
        data: payload.get("data").cloned(),
    };
    let id = field(&v, "id").as_str().unwrap().to_string();
    let payload = match x.route(Inbound::<()>::Reply { id, payload: reply }) {
        Routed::Reply { slot, payload } => {
            assert_eq!(slot, "x-caller");
            payload
        }
        _ => panic!("the reply resolves r1"),
    };
    // The caller's wait ends with exactly that payload.
    match x.finish_wait(&"r1".to_string(), WaitOutcome::Replied(payload)) {
        Ok(p) => {
            assert!(p.success);
            let data = p.data.unwrap();
            assert_eq!(field(&data, "content").as_str(), Some("hello"));
        }
        Err(_) => panic!("send-and-wait returns the reply"),
    }
    assert_eq!(x.pending_requests(), 0);
}

#[test]
fn ipc_test_ipc_communicator_test_mode() {
    let review_result = test_mode_review_result();
    assert!(review_result.success);
    assert!(review_result.message.is_some());
    assert!(review_result.message.unwrap().contains("test mode"));
}

#[test]
fn ipc_test_get_selection_test_mode() {
    let selection_result = test_mode_selection();
    assert!(selection_result.selected_text.is_none());
    assert!(selection_result.message.is_some());
    assert!(selection_result.message.unwrap().contains("test mode"));
}

#[test]
fn reader_dispatch_by_kind() {
    assert_eq!(dispatch_of(IPCMessageType::Response), Dispatch::Reply);
    assert_eq!(dispatch_of(IPCMessageType::UserFeedback), Dispatch::Feedback);
    assert_eq!(dispatch_of(IPCMessageType::Marco), Dispatch::PresenceQuery);
    assert_eq!(dispatch_of(IPCMessageType::Polo), Dispatch::Ignore);
    assert_eq!(dispatch_of(IPCMessageType::PresentReview), Dispatch::Ignore);
}
