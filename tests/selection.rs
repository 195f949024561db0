use gossip_lib::relay::Relay3;
use gossip_lib::url::RelayUrl;

fn url(s: &str) -> RelayUrl {
    RelayUrl::try_from_str(s).unwrap()
}

fn with_bits(s: &str, bits: u64) -> Relay3 {
    let mut r = Relay3::new(url(s));
    r.set_usage_bits(bits);
    r
}

fn texts(v: &[RelayUrl]) -> Vec<String> {
    v.iter().map(|u| u.as_str().to_string()).collect()
}

#[test]
fn choose_keeps_ranked_unavoided_relay() {
    let a = with_bits("wss://a.example.com", Relay3::READ | Relay3::WRITE);
    let relays = vec![a];
    let chosen = Relay3::choose_relays_at(&relays, Relay3::READ, 1000, |_| true);
    assert_eq!(chosen.len(), 1);
    assert_eq!(chosen[0].url.as_str(), "wss://a.example.com/");
}

#[test]
fn choose_skips_rank_zero() {
    let a = with_bits("wss://a.example.com", Relay3::READ | Relay3::WRITE);
    let mut b = with_bits("wss://b.example.com", Relay3::READ | Relay3::WRITE);
    b.rank = 0;
    let relays = vec![a, b];
    let chosen = Relay3::choose_relays_at(&relays, Relay3::READ, 1000, |_| true);
    assert_eq!(chosen.len(), 1);
    assert_eq!(chosen[0].url.as_str(), "wss://a.example.com/");
}

#[test]
fn choose_skips_avoided_until_time_passes() {
    let now: i64 = 1_700_000_000;
    let mut c = with_bits("wss://c.example.com", Relay3::READ | Relay3::WRITE);
    c.avoid_until = Some(now + 3600);
    let relays = vec![c];
    assert!(Relay3::choose_relays_at(&relays, Relay3::READ, now, |_| true).is_empty());
    let later = Relay3::choose_relays_at(&relays, Relay3::READ, now + 7200, |_| true);
    assert_eq!(later.len(), 1);
}

#[test]
fn choose_needs_every_asked_bit_and_predicate() {
    let a = with_bits("wss://a.example.com", Relay3::READ);
    let b = with_bits("wss://b.example.com", Relay3::READ | Relay3::WRITE);
    let c = with_bits("wss://c.example.com", Relay3::READ | Relay3::WRITE);
    let relays = vec![a, b, c];
    let both = Relay3::choose_relay_urls_at(&relays, Relay3::READ | Relay3::WRITE, 5, |_| true);
    assert_eq!(texts(&both), vec!["wss://b.example.com/", "wss://c.example.com/"]);
    let only_c = Relay3::choose_relay_urls_at(&relays, Relay3::READ, 5, |r| r.url.as_str().contains("//c."));
    assert_eq!(texts(&only_c), vec!["wss://c.example.com/"]);
}

#[test]
fn choose_on_no_relays_is_empty() {
    let relays: Vec<Relay3> = Vec::new();
    assert!(Relay3::choose_relays_at(&relays, Relay3::READ, 5, |_| true).is_empty());
    assert_eq!(Relay3::choose_relays(&relays, Relay3::WRITE, |_| true).map(|v| v.len()), Ok(0));
}

#[test]
fn choose_by_system_clock() {
    let a = with_bits("wss://a.example.com", Relay3::WRITE);
    let mut b = with_bits("wss://b.example.com", Relay3::WRITE);
    b.avoid_until = Some(i64::MAX);
    let relays = vec![a, b];
    let urls = Relay3::choose_relay_urls(&relays, Relay3::WRITE, |_| true).unwrap();
    assert_eq!(texts(&urls), vec!["wss://a.example.com/"]);
}

#[test]
fn recommended_relay_prefers_inbox_order() {
    let seen = vec![url("wss://y.example.com"), url("wss://x.example.com"), url("wss://z.example.com")];
    let inbox = vec![url("wss://w.example.com"), url("wss://x.example.com"), url("wss://y.example.com")];
    let r = Relay3::recommended_relay_for_reply(&seen, &inbox).unwrap();
    assert_eq!(r.as_str(), "wss://x.example.com/");
}

#[test]
fn recommended_relay_falls_back_to_first_seen() {
    let seen = vec![url("wss://y.example.com"), url("wss://z.example.com")];
    let inbox = vec![url("wss://w.example.com")];
    let r = Relay3::recommended_relay_for_reply(&seen, &inbox).unwrap();
    assert_eq!(r.as_str(), "wss://y.example.com/");
    let none: Vec<RelayUrl> = Vec::new();
    let r2 = Relay3::recommended_relay_for_reply(&seen, &none).unwrap();
    assert_eq!(r2.as_str(), "wss://y.example.com/");
}

#[test]
fn recommended_relay_none_when_never_seen() {
    let seen: Vec<RelayUrl> = Vec::new();
    let inbox = vec![url("wss://w.example.com")];
    assert!(Relay3::recommended_relay_for_reply(&seen, &inbox).is_none());
}

#[test]
fn reply_relays_take_two_extra_seen_relays() {
    let seen = vec![url("wss://x.example.com"), url("wss://y.example.com"), url("wss://z.example.com")];
    let inbox = vec![url("wss://x.example.com")];
    let r = Relay3::relays_for_reply(&seen, &inbox);
    assert_eq!(
        texts(&r),
        vec!["wss://x.example.com/", "wss://y.example.com/", "wss://z.example.com/"]
    );
}

#[test]
fn reply_relays_cap_extra_at_two() {
    let seen = vec![
        url("wss://x.example.com"),
        url("wss://p.example.com"),
        url("wss://q.example.com"),
        url("wss://r.example.com"),
    ];
    let inbox = vec![url("wss://x.example.com")];
    let r = Relay3::relays_for_reply(&seen, &inbox);
    assert_eq!(
        texts(&r),
        vec!["wss://x.example.com/", "wss://p.example.com/", "wss://q.example.com/"]
    );
}

#[test]
fn reply_relays_keep_all_inbox_relays_and_skip_repeats() {
    let seen = vec![url("wss://p.example.com"), url("wss://p.example.com"), url("wss://b.example.com")];
    let inbox = vec![url("wss://a.example.com"), url("wss://b.example.com"), url("wss://c.example.com")];
    let r = Relay3::relays_for_reply(&seen, &inbox);
    assert_eq!(
        texts(&r),
        vec![
            "wss://a.example.com/",
            "wss://b.example.com/",
            "wss://c.example.com/",
            "wss://p.example.com/"
        ]
    );
}

#[test]
fn reply_relays_with_nothing_known() {
    let none: Vec<RelayUrl> = Vec::new();
    assert!(Relay3::relays_for_reply(&none, &none).is_empty());
}

#[test]
fn event_relays_are_sorted_unique_and_unseen() {
    let relays = vec![
        with_bits("wss://w2.example.com", Relay3::WRITE),
        with_bits("wss://w1.example.com", Relay3::WRITE | Relay3::READ),
        with_bits("wss://r.example.com", Relay3::READ),
        with_bits("wss://seen.example.com", Relay3::WRITE),
    ];
    let tagged = vec![
        vec![url("wss://t1.example.com"), url("wss://w1.example.com")],
        vec![url("wss://seen.example.com"), url("wss://a.example.com")],
    ];
    let seen = vec![url("wss://seen.example.com")];
    let r = Relay3::relays_for_event_at(&relays, &tagged, &seen, 10);
    assert_eq!(
        texts(&r),
        vec![
            "wss://a.example.com/",
            "wss://t1.example.com/",
            "wss://w1.example.com/",
            "wss://w2.example.com/"
        ]
    );
}

#[test]
fn event_relays_skip_avoided_write_relays() {
    let mut w = with_bits("wss://w.example.com", Relay3::WRITE);
    w.avoid_until = Some(i64::MAX);
    let relays = vec![w];
    let tagged: Vec<Vec<RelayUrl>> = Vec::new();
    let seen: Vec<RelayUrl> = Vec::new();
    assert!(Relay3::relays_for_event(&relays, &tagged, &seen).unwrap().is_empty());
    let relays2 = vec![with_bits("wss://w.example.com", Relay3::WRITE)];
    let r = Relay3::relays_for_event(&relays2, &tagged, &seen).unwrap();
    assert_eq!(texts(&r), vec!["wss://w.example.com/"]);
}

#[test]
fn best_relays_sorted_by_role_weight() {
    let a = with_bits("wss://a.example.com", Relay3::READ);
    let b = with_bits("wss://b.example.com", Relay3::READ | Relay3::WRITE);
    let c = with_bits("wss://c.example.com", Relay3::INBOX);
    let d = with_bits("wss://d.example.com", Relay3::WRITE);
    let mut e = with_bits("wss://e.example.com", Relay3::READ);
    e.rank = 0;
    let f = with_bits("wss://f.example.com", Relay3::INBOX | Relay3::DISCOVER | Relay3::SPAMSAFE);
    let relays = vec![a, b, c, d, e, f];
    let best = Relay3::best_relays_at(&relays, Relay3::READ | Relay3::INBOX, 10);
    let order: Vec<String> = best.iter().map(|r| r.url.as_str().to_string()).collect();
    assert_eq!(
        order,
        vec![
            "wss://b.example.com/",
            "wss://a.example.com/",
            "wss://c.example.com/",
            "wss://f.example.com/"
        ]
    );
    let now = Relay3::best_relays(&relays, Relay3::WRITE).unwrap();
    assert_eq!(now.len(), 2);
    assert_eq!(now[0].url.as_str(), "wss://b.example.com/");
}

#[test]
fn reply_relays_skip_repeated_inbox_relays() {
    let seen = vec![url("wss://y.example.com"), url("wss://z.example.com"), url("wss://q.example.com")];
    let inbox = vec![url("wss://x.example.com"), url("wss://x.example.com"), url("wss://y.example.com")];
    let r = Relay3::relays_for_reply(&seen, &inbox);
    assert_eq!(
        texts(&r),
        vec![
            "wss://x.example.com/",
            "wss://y.example.com/",
            "wss://z.example.com/",
            "wss://q.example.com/"
        ]
    );
}

#[test]
fn selections_without_limits_never_fail() {
    let relays: Vec<Relay3> = Vec::new();
    let tagged: Vec<Vec<RelayUrl>> = Vec::new();
    let seen: Vec<RelayUrl> = Vec::new();
    assert_eq!(Relay3::choose_relay_urls(&relays, Relay3::READ, |_| true), Ok(Vec::new()));
    assert_eq!(Relay3::relays_for_event(&relays, &tagged, &seen), Ok(Vec::new()));
    assert!(Relay3::best_relays(&relays, Relay3::READ).unwrap().is_empty());
    let a = vec![with_bits("wss://a.example.com", Relay3::READ)];
    assert_eq!(Relay3::choose_relays(&a, Relay3::READ, |_| true).unwrap().len(), 1);
}
