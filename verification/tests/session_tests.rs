use gateway_client::websocket::{
    classify, frame_dialogue, known_event_name, platform_name, transport_request, AppEvent,
    ConnectStep, DialogueRequest, EventPayload, Gateway, InboundFrame, Platform, SendError,
    WSMessage, WebSocketManager, OUTBOUND_CAPACITY,
};
use serde_json::Value;

fn gateway() -> Gateway {
    Gateway {
        url: "wss://gateway.example/data/websocket/create".to_string(),
        origin: "https://gateway.example".to_string(),
    }
}

fn connected_session(device: &str) -> WebSocketManager {
    let mut ws = WebSocketManager::new();
    let step = ws.connect(&gateway(), device, "1.0.0", Platform::Linux);
    assert!(matches!(step, ConnectStep::Establish(_)));
    assert!(ws.transport_established().is_some());
    ws
}

fn parse(text: &str) -> Value {
    serde_json::from_str(text).unwrap()
}

fn is_flag(ev: &AppEvent, name: &str) -> bool {
    ev.name == name && matches!(ev.payload, EventPayload::Flag(true))
}

#[test]
fn new_session_is_disconnected() {
    let ws = WebSocketManager::new();
    assert!(!ws.is_connected());
    assert_eq!(ws.pending_len(), 0);
}

#[test]
fn connected_only_after_transport_stands() {
    let mut ws = WebSocketManager::new();
    assert!(!ws.is_connected());
    let step = ws.connect(&gateway(), "dev", "1.0.0", Platform::Linux);
    assert!(matches!(step, ConnectStep::Establish(_)));
    assert!(!ws.is_connected());
    let ev = ws.transport_established().unwrap();
    assert!(is_flag(&ev, "connected"));
    assert!(ws.is_connected());
    ws.disconnect();
    assert!(!ws.is_connected());
    assert!(ws.transport_established().is_none());
    assert!(!ws.is_connected());
}

#[test]
fn failed_transport_leaves_session_disconnected() {
    let mut ws = WebSocketManager::new();
    ws.connect(&gateway(), "dev", "1.0.0", Platform::Linux);
    let err = ws.transport_failed("refused");
    assert_eq!(err, "连接失败: refused");
    assert!(!ws.is_connected());
    let again = ws.connect(&gateway(), "dev", "1.0.0", Platform::Linux);
    assert!(matches!(again, ConnectStep::Establish(_)));
}

#[test]
fn transport_failure_report_does_not_end_a_live_session() {
    let mut ws = connected_session("dev");
    ws.transport_failed("late");
    assert!(ws.is_connected());
}

#[test]
fn second_connect_while_connecting_is_a_no_op() {
    let mut ws = WebSocketManager::new();
    let first = ws.connect(&gateway(), "dev", "1.0.0", Platform::Linux);
    let second = ws.connect(&gateway(), "dev", "1.0.0", Platform::Linux);
    assert!(matches!(first, ConnectStep::Establish(_)));
    assert!(matches!(second, ConnectStep::AlreadyActive));
    assert!(ws.transport_established().is_some());
    assert!(ws.transport_established().is_none());
    assert!(ws.is_connected());
}

#[test]
fn connect_on_a_live_session_is_a_no_op() {
    let mut ws = connected_session("dev");
    ws.send_message("", "one").unwrap();
    let step = ws.connect(&gateway(), "other", "2.0.0", Platform::Windows);
    assert!(matches!(step, ConnectStep::AlreadyActive));
    assert!(ws.is_connected());
    assert_eq!(ws.pending_len(), 1);
    ws.send_message("", "two").unwrap();
    ws.next_outbound().unwrap();
    let frame = parse(&ws.next_outbound().unwrap());
    assert_eq!(frame["data"]["device_id"], Value::String("dev".to_string()));
}

#[test]
fn send_on_a_disconnected_session_fails() {
    let mut ws = WebSocketManager::new();
    let r = ws.send_message("c1", "hi");
    assert!(matches!(r, Err(SendError::NotConnected)));
    assert_eq!(r.unwrap_err().message(), "Not connected");
    assert_eq!(ws.pending_len(), 0);
    assert!(ws.next_outbound().is_none());
    assert!(!ws.is_connected());
}

#[test]
fn send_while_connecting_fails() {
    let mut ws = WebSocketManager::new();
    ws.connect(&gateway(), "dev", "1.0.0", Platform::Linux);
    assert!(matches!(ws.send_message("", "hi"), Err(SendError::NotConnected)));
    assert!(matches!(ws.enqueue_frame("x".to_string()), Err(SendError::NotConnected)));
}

#[test]
fn send_after_disconnect_fails() {
    let mut ws = connected_session("dev");
    ws.send_message("", "queued").unwrap();
    ws.disconnect();
    assert!(matches!(ws.send_message("", "hi"), Err(SendError::NotConnected)));
    assert!(ws.next_outbound().is_none());
}

#[test]
fn frames_leave_in_call_order() {
    let mut ws = connected_session("dev");
    let texts = ["first", "second", "third", "fourth"];
    for t in texts {
        ws.send_message("c", t).unwrap();
    }
    assert_eq!(ws.pending_len(), 4);
    for t in texts {
        let frame = parse(&ws.next_outbound().unwrap());
        assert_eq!(frame["data"]["request"], Value::String(t.to_string()));
    }
    assert!(ws.next_outbound().is_none());
}

#[test]
fn sends_and_writes_may_interleave() {
    let mut ws = connected_session("dev");
    ws.enqueue_frame("a".to_string()).unwrap();
    ws.enqueue_frame("b".to_string()).unwrap();
    assert_eq!(ws.next_outbound().unwrap(), "a");
    ws.enqueue_frame("c".to_string()).unwrap();
    assert_eq!(ws.next_outbound().unwrap(), "b");
    assert_eq!(ws.next_outbound().unwrap(), "c");
    assert!(ws.next_outbound().is_none());
}

#[test]
fn queue_holds_at_most_its_capacity() {
    let mut ws = connected_session("dev");
    assert_eq!(OUTBOUND_CAPACITY, 100);
    for i in 0..100 {
        ws.enqueue_frame(format!("f{}", i)).unwrap();
    }
    assert_eq!(ws.pending_len(), 100);
    let r = ws.enqueue_frame("overflow".to_string());
    assert!(matches!(r, Err(SendError::QueueFull)));
    assert!(matches!(ws.send_message("", "hi"), Err(SendError::QueueFull)));
    assert_eq!(ws.pending_len(), 100);
    assert_eq!(ws.next_outbound().unwrap(), "f0");
    ws.enqueue_frame("now it fits".to_string()).unwrap();
    for i in 1..100 {
        assert_eq!(ws.next_outbound().unwrap(), format!("f{}", i));
    }
    assert_eq!(ws.next_outbound().unwrap(), "now it fits");
}

#[test]
fn empty_conversation_id_is_left_out() {
    let mut ws = connected_session("dev-1");
    ws.send_message("", "hi").unwrap();
    let text = ws.next_outbound().unwrap();
    assert_eq!(text, "{\"type\":\"dialogue\",\"data\":{\"device_id\":\"dev-1\",\"request\":\"hi\"}}");
    let frame = parse(&text);
    assert_eq!(frame["type"], Value::String("dialogue".to_string()));
    assert!(frame["data"].get("conversation_id").is_none());
    assert_eq!(frame["data"]["request"], Value::String("hi".to_string()));
    assert_eq!(frame["data"]["device_id"], Value::String("dev-1".to_string()));
}

#[test]
fn conversation_id_is_sent_when_present() {
    let mut ws = connected_session("dev-1");
    ws.send_message("c1", "hi").unwrap();
    let text = ws.next_outbound().unwrap();
    assert!(text.contains("\"conversation_id\":\"c1\""));
    assert_eq!(
        text,
        "{\"type\":\"dialogue\",\"data\":{\"conversation_id\":\"c1\",\"device_id\":\"dev-1\",\"request\":\"hi\"}}"
    );
    let frame = parse(&text);
    assert_eq!(frame["data"]["conversation_id"], Value::String("c1".to_string()));
    assert_eq!(frame["data"].as_object().unwrap().len(), 3);
}

#[test]
fn request_text_is_escaped_as_json() {
    let req = DialogueRequest {
        request: "say \"hi\"\n\\ back".to_string(),
        conversation_id: "c\"1".to_string(),
        device_id: "d".to_string(),
    };
    let text = req.encode().unwrap();
    assert_eq!(
        text,
        "{\"type\":\"dialogue\",\"data\":{\"conversation_id\":\"c\\\"1\",\"device_id\":\"d\",\"request\":\"say \\\"hi\\\"\\n\\\\ back\"}}"
    );
    let frame = parse(&text);
    assert_eq!(frame["data"]["request"], Value::String("say \"hi\"\n\\ back".to_string()));
    assert_eq!(frame["data"]["conversation_id"], Value::String("c\"1".to_string()));
}

#[test]
fn frame_is_assembled_from_quoted_fields() {
    assert_eq!(
        frame_dialogue(None, "\"d\"", "\"r\""),
        "{\"type\":\"dialogue\",\"data\":{\"device_id\":\"d\",\"request\":\"r\"}}"
    );
    assert_eq!(
        frame_dialogue(Some("\"c\"".to_string()), "\"d\"", "\"r\""),
        "{\"type\":\"dialogue\",\"data\":{\"conversation_id\":\"c\",\"device_id\":\"d\",\"request\":\"r\"}}"
    );
}

#[test]
fn content_frame_becomes_content_event() {
    let msg = WSMessage { msg_type: "content".to_string(), data: parse("{\"text\":\"x\"}") };
    let ev = classify(msg);
    assert_eq!(ev.name, "content");
    match ev.payload {
        EventPayload::Data(d) => assert_eq!(d, parse("{\"text\":\"x\"}")),
        other => panic!("unexpected payload {:?}", other),
    }
}

#[test]
fn unknown_type_goes_to_the_fallback_event() {
    let msg = WSMessage { msg_type: "telemetry".to_string(), data: parse("[1,2,3]") };
    let ev = classify(msg);
    assert_eq!(ev.name, "ws_message");
    match ev.payload {
        EventPayload::Envelope(m) => {
            assert_eq!(m.msg_type, "telemetry");
            assert_eq!(m.data, parse("[1,2,3]"));
        }
        other => panic!("unexpected payload {:?}", other),
    }
}

#[test]
fn every_known_type_has_its_event_name() {
    let table = [
        ("connected", "ws_connected"),
        ("version_outdated", "version_outdated"),
        ("banned", "device_banned"),
        ("conversation_id", "conversation_id"),
        ("content", "content"),
        ("done", "done"),
        ("error", "ws_error"),
        ("usage_blocked", "usage_blocked"),
    ];
    for (msg_type, name) in table {
        assert_eq!(known_event_name(msg_type), Some(name));
        let ev = classify(WSMessage { msg_type: msg_type.to_string(), data: Value::Null });
        assert_eq!(ev.name, name);
        assert!(matches!(ev.payload, EventPayload::Data(Value::Null)));
    }
    for other in ["", "Content", "disconnected", "ws_message", "content "] {
        assert_eq!(known_event_name(other), None);
    }
}

#[test]
fn inbound_envelope_keeps_the_session_alive() {
    let mut ws = connected_session("dev");
    ws.send_message("", "waiting").unwrap();
    let msg = WSMessage { msg_type: "done".to_string(), data: Value::Bool(true) };
    let step = ws.on_inbound(InboundFrame::Envelope(msg));
    assert!(!step.finished);
    assert_eq!(step.events.len(), 1);
    assert_eq!(step.events[0].name, "done");
    assert!(ws.is_connected());
    assert_eq!(ws.pending_len(), 1);
}

#[test]
fn malformed_and_ignored_frames_are_dropped() {
    let mut ws = connected_session("dev");
    let step = ws.on_inbound(InboundFrame::Malformed);
    assert!(!step.finished);
    assert!(step.dropped);
    assert!(step.events.is_empty());
    let step = ws.on_inbound(InboundFrame::Ignored);
    assert!(!step.finished);
    assert!(!step.dropped);
    assert!(step.events.is_empty());
    assert!(ws.is_connected());
}

#[test]
fn close_ends_the_session_with_one_event() {
    let mut ws = connected_session("dev");
    ws.send_message("", "never written").unwrap();
    let step = ws.on_inbound(InboundFrame::Closed);
    assert!(step.finished);
    assert_eq!(step.events.len(), 1);
    assert!(is_flag(&step.events[0], "disconnected"));
    assert!(!ws.is_connected());
    assert_eq!(ws.pending_len(), 0);
    assert!(matches!(ws.send_message("", "hi"), Err(SendError::NotConnected)));
}

#[test]
fn read_error_reports_its_text_before_disconnecting() {
    let mut ws = connected_session("dev");
    let step = ws.on_inbound(InboundFrame::Failed("reset by peer".to_string()));
    assert!(step.finished);
    assert_eq!(step.events.len(), 2);
    assert_eq!(step.events[0].name, "connection_error");
    assert!(matches!(&step.events[0].payload, EventPayload::Text(t) if t == "reset by peer"));
    assert!(is_flag(&step.events[1], "disconnected"));
    assert!(!ws.is_connected());
}

#[test]
fn write_failure_disconnects_without_an_event() {
    let mut ws = connected_session("dev");
    ws.send_message("", "lost").unwrap();
    ws.outbound_failed();
    assert!(!ws.is_connected());
    assert!(ws.next_outbound().is_none());
    assert!(matches!(ws.send_message("", "hi"), Err(SendError::NotConnected)));
    let step = ws.on_inbound(InboundFrame::Closed);
    assert!(step.finished);
    assert_eq!(step.events.len(), 1);
    assert!(!ws.is_connected());
}

#[test]
fn session_can_be_connected_again_after_it_ended() {
    let mut ws = connected_session("one");
    ws.on_inbound(InboundFrame::Closed);
    let step = ws.connect(&gateway(), "two", "1.0.1", Platform::Macos);
    assert!(matches!(step, ConnectStep::Establish(_)));
    assert!(ws.transport_established().is_some());
    assert!(ws.is_connected());
    assert_eq!(ws.pending_len(), 0);
    ws.send_message("", "hi").unwrap();
    let frame = parse(&ws.next_outbound().unwrap());
    assert_eq!(frame["data"]["device_id"], Value::String("two".to_string()));
}

#[test]
fn upgrade_request_carries_the_five_headers() {
    let req = transport_request(&gateway(), "abc123", "1.4.2", Platform::Macos);
    assert_eq!(req.url, "wss://gateway.example/data/websocket/create");
    assert!(req.accept_invalid_certs);
    let got: Vec<(String, String)> =
        req.headers.iter().map(|h| (h.name.clone(), h.value.clone())).collect();
    let want = vec![
        ("Origin".to_string(), "https://gateway.example".to_string()),
        (
            "User-Agent".to_string(),
            "Mozilla/5.0 (Windows NT 10.0; Win64; x64) AppleWebKit/537.36".to_string(),
        ),
        ("X-Device-ID".to_string(), "abc123".to_string()),
        ("X-Client-Version".to_string(), "1.4.2".to_string()),
        ("X-Platform".to_string(), "macos".to_string()),
    ];
    assert_eq!(got, want);
}

#[test]
fn connect_hands_out_the_upgrade_request() {
    let mut ws = WebSocketManager::new();
    match ws.connect(&gateway(), "id-9", "0.9.0", Platform::Windows) {
        ConnectStep::Establish(req) => {
            assert_eq!(req.headers.len(), 5);
            assert_eq!(req.headers[2].value, "id-9");
            assert_eq!(req.headers[3].value, "0.9.0");
            assert_eq!(req.headers[4].value, "windows");
        }
        ConnectStep::AlreadyActive => panic!("a new session must open its transport"),
    }
}

#[test]
fn platforms_have_their_names() {
    assert_eq!(platform_name(Platform::Windows), "windows");
    assert_eq!(platform_name(Platform::Macos), "macos");
    assert_eq!(platform_name(Platform::Linux), "linux");
}

#[test]
fn send_errors_have_their_text() {
    assert_eq!(SendError::NotConnected.message(), "Not connected");
    assert_eq!(SendError::QueueFull.message(), "Outbound queue is full");
    assert_eq!(SendError::Encode("bad".to_string()).message(), "bad");
}

#[test]
fn encoding_succeeds_on_any_text() {
    for text in ["", "plain", "\u{0}\u{1f}\u{7f}", "quote \" slash \\", "h\u{e9}llo \u{1f600}"] {
        let req = DialogueRequest {
            request: text.to_string(),
            conversation_id: text.to_string(),
            device_id: text.to_string(),
        };
        let frame = parse(&req.encode().unwrap());
        assert_eq!(frame["data"]["request"], Value::String(text.to_string()));
        assert_eq!(frame["data"]["device_id"], Value::String(text.to_string()));
        if text.is_empty() {
            assert!(frame["data"].get("conversation_id").is_none());
        } else {
            assert_eq!(frame["data"]["conversation_id"], Value::String(text.to_string()));
        }
    }
}
