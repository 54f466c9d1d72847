use dieah_memory::session::{GatewaySession, IncomingFrame, RequestDecision};

fn event(name: &str) -> IncomingFrame {
    IncomingFrame::Event { name: name.to_string(), has_payload: true }
}

#[test]
fn challenge_triggers_connect_once() {
    let mut s = GatewaySession::new();
    assert!(s.on_timer());
    let a = s.on_frame(&event("connect.challenge"));
    assert!(a.send_connect && !a.emit_event);
    s.connect_sent_as("c1".to_string());
    assert!(!s.on_timer());
    let a = s.on_frame(&event("connect.challenge"));
    assert!(!a.send_connect && a.emit_event);
}

#[test]
fn chat_and_agent_events_are_forwarded() {
    let s = GatewaySession::new();
    let a = s.on_frame(&event("chat"));
    assert!(a.emit_event && a.emit_chat && !a.emit_agent);
    let a = s.on_frame(&event("agent"));
    assert!(a.emit_event && a.emit_agent && !a.emit_chat);
    let a = s.on_frame(&IncomingFrame::Event { name: "chat".to_string(), has_payload: false });
    assert!(a.emit_event && !a.emit_chat);
    let a = s.on_frame(&IncomingFrame::Other);
    assert!(!a.emit_event && a.settle.is_none());
}

#[test]
fn responses_settle_and_answer_the_handshake() {
    let mut s = GatewaySession::new();
    s.request_sent_as("connect", "r1".to_string());
    assert!(s.connect_sent);
    assert!(matches!(s.on_request("connect"), RequestDecision::Refuse(m) if m == "gateway connect already in progress"));
    assert!(matches!(s.on_request("chat.send"), RequestDecision::Send));
    let a = s.on_frame(&IncomingFrame::Response { id: "r1".to_string(), ok: false });
    assert_eq!(a.settle, Some(("r1".to_string(), false)));
    assert_eq!(a.hello, Some(false));
    let a = s.on_frame(&IncomingFrame::Response { id: "r2".to_string(), ok: true });
    assert_eq!(a.settle, Some(("r2".to_string(), true)));
    assert_eq!(a.hello, None);
    s.request_sent_as("connect", "r3".to_string());
    assert_eq!(s.connect_request_id.as_deref(), Some("r1"));
}
