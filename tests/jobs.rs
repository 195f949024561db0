use gossip_lib::comms::{RelayConnectionReason, RelayJob, ToMinionPayload, ToMinionPayloadDetail, ToOverlordMessage};
use gossip_lib::jobs::JobTable;
use gossip_lib::url::RelayUrl;

fn url(s: &str) -> RelayUrl {
    RelayUrl::try_from_str(s).unwrap()
}

fn job(reason: RelayConnectionReason, job_id: u64, detail: ToMinionPayloadDetail) -> RelayJob {
    RelayJob { reason, payload: ToMinionPayload { job_id, detail } }
}

#[test]
fn reconnect_restores_only_persistent_jobs() {
    let relay = url("wss://relay.example.com");
    let other = url("wss://other.example.com");
    let mut table = JobTable::new();
    table.dispatch(relay.clone(), job(RelayConnectionReason::Follow, 1, ToMinionPayloadDetail::SubscribeOutbox));
    table.dispatch(relay.clone(), job(RelayConnectionReason::FetchEvent, 2, ToMinionPayloadDetail::SubscribeMentions));
    table.dispatch(other.clone(), job(RelayConnectionReason::PostEvent, 3, ToMinionPayloadDetail::Shutdown));
    assert_eq!(table.job_count(&relay), 2);

    let saved = table.disconnect(&relay);
    assert_eq!(saved.len(), 1);
    assert_eq!(saved[0].reason, RelayConnectionReason::Follow);
    assert_eq!(saved[0].payload.job_id, 1);
    assert_eq!(table.job_count(&relay), 0);
    assert_eq!(table.job_count(&other), 1);

    let msgs = table.reengage(&relay, saved);
    assert_eq!(msgs.len(), 1);
    assert_eq!(msgs[0].target, "wss://relay.example.com/");
    assert_eq!(msgs[0].payload.job_id, 1);
    assert!(matches!(msgs[0].payload.detail, ToMinionPayloadDetail::SubscribeOutbox));
    assert_eq!(table.job_count(&relay), 1);
    assert!(!table.complete(&relay, 2));
    assert!(table.complete(&relay, 1));
    assert_eq!(table.job_count(&relay), 0);
}

#[test]
fn completion_forgets_only_that_job() {
    let relay = url("wss://relay.example.com");
    let mut table = JobTable::new();
    table.dispatch(relay.clone(), job(RelayConnectionReason::ReadThread, 7, ToMinionPayloadDetail::UnsubscribeThreadFeed));
    table.dispatch(relay.clone(), job(RelayConnectionReason::PostLike, 8, ToMinionPayloadDetail::Shutdown));
    assert!(table.complete(&relay, 8));
    assert_eq!(table.job_count(&relay), 1);
    assert!(!table.complete(&url("wss://other.example.com"), 7));
    assert_eq!(table.job_count(&relay), 1);
}

#[test]
fn disconnect_without_persistent_jobs_saves_nothing() {
    let relay = url("wss://relay.example.com");
    let mut table = JobTable::new();
    table.dispatch(relay.clone(), job(RelayConnectionReason::PostEvent, 1, ToMinionPayloadDetail::Shutdown));
    assert!(table.disconnect(&relay).is_empty());
    assert_eq!(table.job_count(&relay), 0);
}

#[test]
fn disconnect_message_carries_persistent_jobs() {
    let relay = url("wss://relay.example.com");
    let mut table = JobTable::new();
    table.dispatch(relay.clone(), job(RelayConnectionReason::FetchMentions, 4, ToMinionPayloadDetail::SubscribeMentions));
    table.dispatch(relay.clone(), job(RelayConnectionReason::FetchMetadata, 5, ToMinionPayloadDetail::SubscribeNip46));
    match table.relay_disconnected(&relay) {
        Some(ToOverlordMessage::ReengageMinion(u, jobs)) => {
            assert_eq!(u.as_str(), "wss://relay.example.com/");
            assert_eq!(jobs.len(), 1);
            assert_eq!(jobs[0].payload.job_id, 4);
        }
        _ => panic!("expected a re-engage message"),
    }
    assert_eq!(table.job_count(&relay), 0);
    table.dispatch(relay.clone(), job(RelayConnectionReason::PostEvent, 6, ToMinionPayloadDetail::Shutdown));
    assert!(table.relay_disconnected(&relay).is_none());
}
