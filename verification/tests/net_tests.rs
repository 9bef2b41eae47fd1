use clippy_share::net::{
    publish_outcome, received_outcome, serialization_failed, ClipboardMessage, NetError, NetEvent,
    SwarmPeers, CLIPBOARD_TOPIC,
};

fn strings(items: &[&str]) -> Vec<String> {
    items.iter().map(|s| s.to_string()).collect()
}

#[test]
fn new_message_keeps_fields_and_stamps_time() {
    let m = ClipboardMessage::new("t".to_string(), "dev".to_string(), strings(&["a"]));
    assert_eq!(m.text, "t");
    assert_eq!(m.source_device, "dev");
    assert_eq!(m.target_peer_ids, strings(&["a"]));
    assert!(m.sent_at_ms > 0);
    let s = ClipboardMessage::stamped("x".to_string(), "d".to_string(), vec![], 42);
    assert_eq!(s.sent_at_ms, 42);
}

#[test]
fn discovery_reports_new_peers_once() {
    let mut peers = SwarmPeers::new();
    assert_eq!(peers.on_discovered(strings(&["a", "b", "a"])), strings(&["a", "b"]));
    assert_eq!(peers.on_discovered(strings(&["b", "c"])), strings(&["c"]));
    assert!(peers.knows("a") && peers.knows("c"));
}

#[test]
fn expiry_reports_known_peers_once() {
    let mut peers = SwarmPeers::new();
    peers.on_discovered(strings(&["a", "b"]));
    assert_eq!(peers.on_expired(strings(&["a", "x", "a"])), strings(&["a"]));
    assert!(!peers.knows("a"));
    assert!(peers.knows("b"));
    assert_eq!(peers.on_discovered(strings(&["a"])), strings(&["a"]));
}

#[test]
fn publish_reports_utf8_byte_count_or_error() {
    let m = ClipboardMessage::stamped("héllo".to_string(), "d".to_string(), vec![], 1);
    match publish_outcome(&m, None) {
        NetEvent::Published { bytes } => assert_eq!(bytes, 6),
        other => panic!("unexpected {:?}", other),
    }
    match publish_outcome(&m, Some("no peers".to_string())) {
        NetEvent::Error { message } => assert_eq!(message, "publish failed: no peers"),
        other => panic!("unexpected {:?}", other),
    }
}

#[test]
fn received_payloads_are_reported() {
    let m = ClipboardMessage::stamped("x".to_string(), "d".to_string(), vec![], 1);
    match received_outcome("p".to_string(), Ok(m)) {
        NetEvent::ClipboardReceived { from_peer, message } => {
            assert_eq!(from_peer, "p");
            assert_eq!(message.text, "x");
        }
        other => panic!("unexpected {:?}", other),
    }
    match received_outcome("p".to_string(), Err("bad json".to_string())) {
        NetEvent::Error { message } => assert_eq!(message, "failed to parse clipboard message: bad json"),
        other => panic!("unexpected {:?}", other),
    }
    match serialization_failed("oops".to_string()) {
        NetEvent::Error { message } => assert_eq!(message, "serialization failed: oops"),
        other => panic!("unexpected {:?}", other),
    }
}

#[test]
fn net_errors_display_as_before() {
    assert_eq!(NetError::Setup("boom".to_string()).to_string(), "network setup failed: boom");
    assert_eq!(NetError::CommandChannelClosed.to_string(), "network command queue is closed");
    assert_eq!(CLIPBOARD_TOPIC, "clippy-share/clipboard/v1");
}
