use gossip_lib::relay::Relay3;
use gossip_lib::url::RelayUrl;

fn url(s: &str) -> RelayUrl {
    RelayUrl::try_from_str(s).unwrap()
}

fn record(s: &str) -> Relay3 {
    Relay3::new(url(s))
}

#[test]
fn new_record_has_defaults() {
    let r = record("wss://relay.example.com");
    assert_eq!(r.rank, 3);
    assert_eq!(r.success_count, 0);
    assert_eq!(r.failure_count, 0);
    assert_eq!(r.get_usage_bits(), 0);
    assert!(!r.hidden);
    assert!(r.avoid_until.is_none());
    assert!(r.allow_connect.is_none());
    assert!(r.allow_auth.is_none());
    assert!(r.nip11.is_none());
    assert!(r.last_connected_at.is_none());
}

#[test]
fn stored_retired_bit_is_masked() {
    let mut r = record("wss://relay.example.com");
    r.usage_bits = 4 | Relay3::READ;
    assert_eq!(r.get_usage_bits(), Relay3::READ);
    assert!(!r.has_usage_bits(4));
    assert!(r.has_usage_bits(Relay3::READ));
}

#[test]
fn set_usage_bits_never_sets_retired_bit() {
    let mut r = record("wss://relay.example.com");
    r.set_usage_bits(4 | Relay3::WRITE);
    assert_eq!(r.usage_bits, Relay3::WRITE);
    assert_eq!(r.get_usage_bits(), Relay3::WRITE);
}

#[test]
fn records_differing_only_in_retired_bit_are_equal() {
    let mut old = record("wss://relay.example.com");
    old.usage_bits = 4 | Relay3::INBOX;
    let mut fresh = record("wss://relay.example.com");
    fresh.set_usage_bits(Relay3::INBOX);
    assert!(old == fresh);
    fresh.set_usage_bits(Relay3::READ);
    assert!(old != fresh);
}

#[test]
fn clone_is_equal() {
    let mut r = record("wss://relay.example.com");
    r.set_usage_bits(Relay3::READ | Relay3::DM);
    r.success_count = 7;
    r.nip11 = Some("{\"name\":\"x\"}".to_string());
    let c = r.clone();
    assert!(c == r);
    assert_eq!(c.nip11, r.nip11);
}

#[test]
fn clear_and_adjust_usage_bits() {
    let mut r = record("wss://relay.example.com");
    r.set_usage_bits(Relay3::READ | Relay3::WRITE | Relay3::INBOX);
    r.clear_usage_bits(Relay3::WRITE);
    assert_eq!(r.get_usage_bits(), Relay3::READ | Relay3::INBOX);
    r.adjust_usage_bit(Relay3::DM, true);
    assert!(r.has_usage_bits(Relay3::DM));
    r.adjust_usage_bit(Relay3::READ, false);
    assert_eq!(r.get_usage_bits(), Relay3::INBOX | Relay3::DM);
}

#[test]
fn has_any_usage_bit_ignores_spamsafe() {
    let mut r = record("wss://relay.example.com");
    assert!(!r.has_any_usage_bit());
    r.set_usage_bits(Relay3::SPAMSAFE);
    assert!(!r.has_any_usage_bit());
    r.set_usage_bits(Relay3::DISCOVER);
    assert!(r.has_any_usage_bit());
}

#[test]
fn usage_sort_weight() {
    let mut r = record("wss://relay.example.com");
    r.set_usage_bits(Relay3::DISCOVER | Relay3::SPAMSAFE);
    assert_eq!(r.get_usage_bits_for_sorting(), 0);
    r.set_usage_bits(Relay3::READ | Relay3::WRITE | Relay3::DM);
    assert_eq!(r.get_usage_bits_for_sorting(), 64 + 32 + 4);
    r.set_usage_bits(Relay3::INBOX | Relay3::OUTBOX);
    assert_eq!(r.get_usage_bits_for_sorting(), 124);
}

#[test]
fn success_rate_is_half_without_attempts() {
    let r = record("wss://relay.example.com");
    assert_eq!(r.attempts(), 0);
    assert_eq!(r.success_rate(), (1, 2));
}

#[test]
fn success_rate_is_fraction_of_attempts() {
    let mut r = record("wss://relay.example.com");
    r.success_count = 3;
    r.failure_count = 1;
    assert_eq!(r.attempts(), 4);
    let (num, den) = r.success_rate();
    assert_eq!((num, den), (3, 4));
    let rate = num as f32 / den as f32;
    assert!((0.0..=1.0).contains(&rate));
    assert_eq!(rate, 0.75);
}

#[test]
fn success_rate_stays_in_unit_range() {
    for (s, f) in [(0u64, 5u64), (5, 0), (1, 1), (100, 3)] {
        let mut r = record("wss://relay.example.com");
        r.success_count = s;
        r.failure_count = f;
        let (num, den) = r.success_rate();
        assert!(den > 0);
        assert!(num <= den);
    }
}

#[test]
fn avoidance_by_time() {
    let mut r = record("wss://relay.example.com");
    assert!(!r.should_avoid_at(1000));
    r.avoid_until = Some(1000 + 3600);
    assert!(r.should_avoid_at(1000));
    assert!(r.should_avoid_at(1000 + 3600));
    assert!(!r.should_avoid_at(1000 + 7200));
}

#[test]
fn avoidance_by_system_clock() {
    let mut r = record("wss://relay.example.com");
    assert_eq!(r.should_avoid(), Ok(false));
    r.avoid_until = Some(i64::MAX);
    assert_eq!(r.should_avoid(), Ok(true));
    r.avoid_until = Some(0);
    assert_eq!(r.should_avoid(), Ok(false));
}

#[test]
fn advertise_when_designated() {
    for bit in [Relay3::INBOX, Relay3::OUTBOX, Relay3::DISCOVER] {
        let mut r = record("wss://relay.example.com");
        r.set_usage_bits(bit);
        assert!(r.is_good_for_advertise_at(10));
    }
    let mut r = record("wss://relay.example.com");
    r.set_usage_bits(Relay3::READ | Relay3::WRITE);
    assert!(!r.is_good_for_advertise_at(10));
}

#[test]
fn advertise_when_proven_reliable() {
    let mut r = record("wss://relay.example.com");
    r.success_count = 16;
    r.failure_count = 15;
    assert!(r.is_good_for_advertise_at(10));
    r.success_count = 15;
    r.failure_count = 0;
    assert!(!r.is_good_for_advertise_at(10));
    r.success_count = 16;
    r.failure_count = 16;
    assert!(!r.is_good_for_advertise_at(10));
    r.failure_count = 0;
    r.rank = 0;
    assert!(!r.is_good_for_advertise_at(10));
}

#[test]
fn never_advertise_while_avoided() {
    let mut r = record("wss://relay.example.com");
    r.set_usage_bits(Relay3::INBOX);
    r.avoid_until = Some(20);
    assert!(!r.is_good_for_advertise_at(10));
    assert!(r.is_good_for_advertise_at(21));
    r.avoid_until = Some(i64::MAX);
    assert_eq!(r.is_good_for_advertise(), Ok(false));
    r.avoid_until = None;
    assert_eq!(r.is_good_for_advertise(), Ok(true));
}

#[test]
fn connection_outcomes_update_counters() {
    let mut r = record("wss://relay.example.com");
    r.record_success(1234);
    r.record_success(1300);
    r.record_failure();
    assert_eq!(r.success_count, 2);
    assert_eq!(r.failure_count, 1);
    assert_eq!(r.last_connected_at, Some(1300));
    r.success_count = u64::MAX;
    r.record_success(1400);
    assert_eq!(r.success_count, u64::MAX);
}

#[test]
fn rank_above_nine_is_refused() {
    let mut r = record("wss://relay.example.com");
    assert_eq!(r.set_rank(9), Ok(()));
    assert_eq!(r.rank, 9);
    assert_eq!(r.set_rank(0), Ok(()));
    assert_eq!(r.rank, 0);
    assert_eq!(r.set_rank(10), Err(gossip_lib::error::GossipError::InvalidInput));
    assert_eq!(r.rank, 0);
}
