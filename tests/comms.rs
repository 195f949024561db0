use gossip_lib::comms::{RelayConnectionReason, ToMinionMessage, ToMinionPayload, ToMinionPayloadDetail, ToOverlordMessage};
use gossip_lib::url::RelayUrl;

#[test]
fn reason_descriptions() {
    assert_eq!(RelayConnectionReason::Discovery.description(), "Searching for other people's Relay Lists");
    assert_eq!(RelayConnectionReason::Follow.description(), "Following the posts of people in our Contact List");
    assert_eq!(RelayConnectionReason::PostEvent.description(), "Posting an event");
    assert_eq!(RelayConnectionReason::SubscribePerson.description(), "Subscribe to the events of a person");
}

#[test]
fn persistent_reasons() {
    let persistent = [RelayConnectionReason::FetchMentions, RelayConnectionReason::Follow, RelayConnectionReason::FetchDirectMessages, RelayConnectionReason::NostrConnect, RelayConnectionReason::ReadThread];
    let one_shot = [
        RelayConnectionReason::Advertising, RelayConnectionReason::Config, RelayConnectionReason::Discovery, RelayConnectionReason::FetchAugments, RelayConnectionReason::FetchContacts, RelayConnectionReason::FetchEvent, RelayConnectionReason::FetchMetadata,
        RelayConnectionReason::PostEvent, RelayConnectionReason::PostContacts, RelayConnectionReason::PostLike, RelayConnectionReason::PostMetadata, RelayConnectionReason::PostMuteList, RelayConnectionReason::PostNostrConnect, RelayConnectionReason::SubscribePerson,
    ];
    for r in persistent {
        assert!(r.persistent());
    }
    for r in one_shot {
        assert!(!r.persistent());
    }
}

#[test]
fn internal_messages() {
    let u = RelayUrl::try_from_str("wss://relay.example.com").unwrap();
    assert!(ToOverlordMessage::MinionJobComplete(u.clone(), 1).is_internal());
    assert!(ToOverlordMessage::MinionJobUpdated(u.clone(), 1, 2).is_internal());
    assert!(ToOverlordMessage::ReengageMinion(u.clone(), Vec::new()).is_internal());
    assert!(!ToOverlordMessage::AddRelay(u.clone()).is_internal());
    assert!(!ToOverlordMessage::Shutdown.is_internal());
    assert!(!ToOverlordMessage::RankRelay(u, 5).is_internal());
}

#[test]
fn broadcast_reaches_every_worker() {
    let a = RelayUrl::try_from_str("wss://a.example.com").unwrap();
    let b = RelayUrl::try_from_str("wss://b.example.com").unwrap();
    let m = ToMinionMessage::broadcast(ToMinionPayload { job_id: 9, detail: ToMinionPayloadDetail::Shutdown });
    assert_eq!(m.target, "all");
    assert!(m.addresses(&a));
    assert!(m.addresses(&b));
    let only_a = ToMinionMessage {
        target: a.as_str().to_string(),
        payload: ToMinionPayload { job_id: 10, detail: ToMinionPayloadDetail::SubscribeMentions },
    };
    assert!(only_a.addresses(&a));
    assert!(!only_a.addresses(&b));
}
