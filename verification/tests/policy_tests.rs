use clippy_share::peer_set::PeerSet;
use clippy_share::policy::{parse_peer_list, PolicyEngine};

fn strings(items: &[&str]) -> Vec<String> {
    items.iter().map(|s| s.to_string()).collect()
}

#[test]
fn peer_list_is_trimmed_deduplicated_and_ordered() {
    let peers = parse_peer_list(" alpha , beta,,alpha,\tgamma\n, ");
    assert_eq!(peers.to_vec(), strings(&["alpha", "beta", "gamma"]));
}

#[test]
fn peer_list_of_empty_value_is_empty() {
    assert!(parse_peer_list("").is_empty());
    assert!(parse_peer_list(" , ,,").is_empty());
}

#[test]
fn peer_list_trims_unicode_white_space() {
    let peers = parse_peer_list("\u{3000}peer\u{00A0},x y");
    assert_eq!(peers.to_vec(), strings(&["peer", "x y"]));
}

#[test]
fn no_selection_applies_untargeted_messages_everywhere() {
    let policy = PolicyEngine::from_env("", "");
    assert!(policy.should_apply_message("me", &[]));
    assert!(policy.outbound_targets().is_empty());
}

#[test]
fn selection_limits_untargeted_messages() {
    let policy = PolicyEngine::from_env("a, b", "");
    assert!(policy.should_apply_message("a", &[]));
    assert!(policy.should_apply_message("b", &[]));
    assert!(!policy.should_apply_message("c", &[]));
}

#[test]
fn named_targets_override_the_selection() {
    let policy = PolicyEngine::from_env("a", "");
    assert!(policy.should_apply_message("c", &strings(&["c", "d"])));
    assert!(!policy.should_apply_message("a", &strings(&["c"])));
    let open = PolicyEngine::from_env("", "");
    assert!(!open.should_apply_message("a", &strings(&["c"])));
}

#[test]
fn outbound_targets_come_from_target_list() {
    let policy = PolicyEngine::from_env("", "x, y ,x");
    assert_eq!(policy.outbound_targets(), strings(&["x", "y"]));
}

#[test]
fn peer_set_insert_and_remove() {
    let mut set = PeerSet::new();
    assert!(set.insert("a".to_string()));
    assert!(!set.insert("a".to_string()));
    assert!(set.insert("b".to_string()));
    assert_eq!(set.len(), 2);
    assert!(set.contains("a"));
    assert!(set.remove("a"));
    assert!(!set.remove("a"));
    assert!(!set.contains("a"));
    assert_eq!(set.to_vec(), strings(&["b"]));
}
