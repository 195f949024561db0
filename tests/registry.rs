use gossip_lib::registry::RelayRegistry;
use gossip_lib::relay::Relay3;
use gossip_lib::theme::ThemeTest;
use gossip_lib::url::RelayUrl;

fn url(s: &str) -> RelayUrl {
    RelayUrl::try_from_str(s).unwrap()
}

#[test]
fn upsert_replaces_record_of_same_url() {
    let mut reg = RelayRegistry::new();
    assert!(reg.get(&url("wss://a.example.com")).is_none());
    reg.upsert(Relay3::new(url("wss://a.example.com")));
    reg.upsert(Relay3::new(url("wss://b.example.com")));
    let mut a = Relay3::new(url("wss://A.example.com"));
    a.rank = 7;
    reg.upsert(a);
    assert_eq!(reg.records().len(), 2);
    assert_eq!(reg.get(&url("wss://a.example.com")).unwrap().rank, 7);
    assert_eq!(reg.records()[0].url.as_str(), "wss://a.example.com/");
}

#[test]
fn filter_keeps_accepted_records() {
    let mut reg = RelayRegistry::new();
    let mut a = Relay3::new(url("wss://a.example.com"));
    a.hidden = true;
    reg.upsert(a);
    reg.upsert(Relay3::new(url("wss://b.example.com")));
    let hidden = reg.filter_relays(|r| r.hidden);
    assert_eq!(hidden.len(), 1);
    assert_eq!(hidden[0].url.as_str(), "wss://a.example.com/");
    assert!(RelayRegistry::new().filter_relays(|_| true).is_empty());
}

#[test]
fn theme_test_defaults_off() {
    let t = ThemeTest::default();
    assert!(!t.button_small);
    assert!(!t.button_wide);
}
