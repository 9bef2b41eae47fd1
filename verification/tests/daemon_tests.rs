use clippy_share::daemon::{resolve_node_name, CoreDaemon, DaemonAction};
use clippy_share::net::{ClipboardMessage, NetEvent};
use clippy_share::platform::ClipData;
use clippy_share::policy::PolicyEngine;

fn text(s: &str) -> Option<ClipData> {
    Some(ClipData::Text(s.to_string()))
}

fn received(from: &str, body: &str, targets: &[&str]) -> Option<NetEvent> {
    Some(NetEvent::ClipboardReceived {
        from_peer: from.to_string(),
        message: ClipboardMessage::stamped(
            body.to_string(),
            "laptop".to_string(),
            targets.iter().map(|t| t.to_string()).collect(),
            7,
        ),
    })
}

#[test]
fn local_text_is_broadcast_to_outbound_targets() {
    let mut daemon = CoreDaemon::new(PolicyEngine::from_env("", "p1,p2"));
    match daemon.on_local_clip(text("hello")) {
        DaemonAction::Broadcast { text, target_peer_ids } => {
            assert_eq!(text, "hello");
            assert_eq!(target_peer_ids, vec!["p1".to_string(), "p2".to_string()]);
        }
        other => panic!("unexpected action {:?}", other),
    }
}

#[test]
fn applied_remote_text_is_not_echoed_once() {
    let mut daemon = CoreDaemon::new(PolicyEngine::from_env("", ""));
    daemon.on_remote_applied("copied".to_string(), true);
    assert!(matches!(daemon.on_local_clip(text("copied")), DaemonAction::Nothing));
    assert!(matches!(daemon.on_local_clip(text("copied")), DaemonAction::Broadcast { .. }));
}

#[test]
fn other_text_is_sent_while_echo_awaited() {
    let mut daemon = CoreDaemon::new(PolicyEngine::from_env("", ""));
    daemon.on_remote_applied("remote".to_string(), true);
    assert!(matches!(daemon.on_local_clip(text("local")), DaemonAction::Broadcast { .. }));
    assert!(matches!(daemon.on_local_clip(text("remote")), DaemonAction::Nothing));
}

#[test]
fn failed_write_does_not_suppress() {
    let mut daemon = CoreDaemon::new(PolicyEngine::from_env("", ""));
    daemon.on_remote_applied("remote".to_string(), false);
    assert!(matches!(daemon.on_local_clip(text("remote")), DaemonAction::Broadcast { .. }));
}

#[test]
fn raw_payloads_are_not_sent_and_closed_channel_stops() {
    let mut daemon = CoreDaemon::new(PolicyEngine::from_env("", ""));
    let raw = Some(ClipData::Raw { mime_type: "image/png".to_string(), bytes: vec![1, 2, 3] });
    assert!(matches!(daemon.on_local_clip(raw), DaemonAction::Nothing));
    assert!(matches!(daemon.on_local_clip(None), DaemonAction::Stop));
}

#[test]
fn remote_text_is_applied_unless_own_or_untargeted() {
    let daemon = CoreDaemon::new(PolicyEngine::from_env("", ""));
    match daemon.on_net_event("me", received("peer", "hi", &[])) {
        DaemonAction::ApplyRemote { text } => assert_eq!(text, "hi"),
        other => panic!("unexpected action {:?}", other),
    }
    assert!(matches!(daemon.on_net_event("me", received("me", "hi", &[])), DaemonAction::Nothing));
    assert!(matches!(
        daemon.on_net_event("me", received("peer", "hi", &["other"])),
        DaemonAction::Nothing
    ));
    assert!(matches!(
        daemon.on_net_event("me", received("peer", "hi", &["me"])),
        DaemonAction::ApplyRemote { .. }
    ));
}

#[test]
fn selected_devices_policy_filters_untargeted_messages() {
    let daemon = CoreDaemon::new(PolicyEngine::from_env("a", ""));
    assert!(matches!(daemon.on_net_event("b", received("a", "x", &[])), DaemonAction::Nothing));
    assert!(matches!(daemon.on_net_event("a", received("b", "x", &[])), DaemonAction::ApplyRemote { .. }));
}

#[test]
fn other_events_need_nothing_and_closed_events_stop() {
    let daemon = CoreDaemon::new(PolicyEngine::from_env("", ""));
    let ev = Some(NetEvent::PeerDiscovered { peer_id: "p".to_string() });
    assert!(matches!(daemon.on_net_event("me", ev), DaemonAction::Nothing));
    assert!(matches!(daemon.on_net_event("me", Some(NetEvent::Published { bytes: 3 })), DaemonAction::Nothing));
    assert!(matches!(daemon.on_net_event("me", None), DaemonAction::Stop));
}

#[test]
fn node_name_falls_back_in_order() {
    assert_eq!(resolve_node_name(Some("n".to_string()), Some("h".to_string())), "n");
    assert_eq!(resolve_node_name(None, Some("h".to_string())), "h");
    assert_eq!(resolve_node_name(None, None), "clippy-node");
}
