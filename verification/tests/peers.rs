//! The peer view: deduplication and departure handling.

use spotify_blog::commands::validate_create_fields;
use spotify_blog::commands::CommandInputError;
use spotify_blog::peers::PeerView;

#[test]
fn discovered_peers_are_deduplicated() {
    let mut peers = PeerView::new();
    peers.add_peer("p1".to_string());
    peers.add_peer("p2".to_string());
    peers.add_peer("p1".to_string());
    assert_eq!(peers.current_peers().len(), 2);
    assert_eq!(peers.current_peers()[0], "p1");
    assert_eq!(peers.current_peers()[1], "p2");
}

#[test]
fn expired_peer_is_dropped_unless_still_reachable() {
    let mut peers = PeerView::new();
    peers.add_peer("p1".to_string());
    peers.add_peer("p2".to_string());
    peers.remove_peer(&"p1".to_string(), true);
    assert_eq!(peers.current_peers().len(), 2);
    peers.remove_peer(&"p1".to_string(), false);
    assert_eq!(peers.current_peers().len(), 1);
    assert_eq!(peers.current_peers()[0], "p2");
    peers.remove_peer(&"p9".to_string(), false);
    assert_eq!(peers.current_peers().len(), 1);
}

#[test]
fn creation_needs_three_non_empty_fields() {
    let full = validate_create_fields(&"t".to_string(), &"a".to_string(), &"l".to_string());
    assert!(full.is_ok());
    let missing = validate_create_fields(&"".to_string(), &"a".to_string(), &"l".to_string());
    assert!(matches!(missing, Err(CommandInputError::TooFewFields)));
    let missing2 = validate_create_fields(&"t".to_string(), &"a".to_string(), &"".to_string());
    assert!(matches!(missing2, Err(CommandInputError::TooFewFields)));
}
