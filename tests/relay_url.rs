use gossip_lib::error::GossipError;
use gossip_lib::url::RelayUrl;

#[test]
fn url_is_normalised() {
    let u = RelayUrl::try_from_str("wss://Relay.Example.COM").unwrap();
    assert_eq!(u.as_str(), "wss://relay.example.com/");
    let v = RelayUrl::try_from_str("  ws://relay.example.com/path  ").unwrap();
    assert_eq!(v.as_str(), "ws://relay.example.com/path");
}

#[test]
fn non_websocket_url_is_invalid() {
    assert_eq!(RelayUrl::try_from_str("https://relay.example.com"), Err(GossipError::InvalidInput));
}

#[test]
fn malformed_url_is_invalid() {
    assert_eq!(RelayUrl::try_from_str("not a url"), Err(GossipError::InvalidInput));
    assert_eq!(RelayUrl::try_from_str(""), Err(GossipError::InvalidInput));
}

#[test]
fn url_order_is_bytewise() {
    let a = RelayUrl::try_from_str("wss://a.example.com").unwrap();
    let b = RelayUrl::try_from_str("wss://b.example.com").unwrap();
    assert!(a.less_than(&b));
    assert!(!b.less_than(&a));
    assert!(!a.less_than(&a.clone()));
    assert_eq!(a.less_than(&b), a < b);
}
