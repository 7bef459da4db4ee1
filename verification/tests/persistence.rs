use outpost_config::provider::InMemoryProvider;
use outpost_config::store::{store_rebuilt_from_payload, StoreMap};
use outpost_config::{ConfigError, ConfigProvider, FileAwareConfigProvider};

#[test]
fn save_then_load_restores_every_entry() {
    let p = InMemoryProvider::new();
    p.put("a", "1").unwrap();
    p.put("b", "\"x\"").unwrap();
    let payload = p.save_payload().unwrap();

    let q = InMemoryProvider::new();
    q.load_payload(&payload).unwrap();
    assert_eq!(q.get("a").unwrap(), "1");
    assert_eq!(q.get("b").unwrap(), "\"x\"");
    let mut keys = q.list().unwrap();
    keys.sort();
    assert_eq!(keys, vec!["a".to_string(), "b".to_string()]);
}

#[test]
fn any_store_rebuilds_from_its_payload() {
    let mut s = StoreMap::empty();
    s.insert("alpha", "1");
    s.insert("beta", "[1,2]");
    s.insert("alpha", "2");
    let r = store_rebuilt_from_payload(&s);
    assert_eq!(r.get("alpha"), Some("2".to_string()));
    assert_eq!(r.get("beta"), Some("[1,2]".to_string()));
    assert!(!r.contains("gamma"));
    assert_eq!(r.keys().len(), 2);
}

#[test]
fn load_merges_and_overwrites_instead_of_replacing() {
    let p = InMemoryProvider::new();
    p.put("a", "1").unwrap();
    p.put("c", "3").unwrap();
    p.load_payload("{\"b\": \"2\", \"c\": \"9\"}").unwrap();
    assert_eq!(p.get("a").unwrap(), "1");
    assert_eq!(p.get("b").unwrap(), "2");
    assert_eq!(p.get("c").unwrap(), "9");
}

#[test]
fn load_of_malformed_text_fails_and_changes_nothing() {
    let p = InMemoryProvider::new();
    p.put("a", "1").unwrap();
    let r = p.load_payload("this is not a mapping");
    assert!(matches!(r, Err(ConfigError::Other(_))));
    assert_eq!(p.get("a").unwrap(), "1");
    assert_eq!(p.list().unwrap(), vec!["a".to_string()]);
}

#[test]
fn load_of_a_non_object_fails() {
    let p = InMemoryProvider::new();
    assert!(matches!(
        p.load_payload("[1, 2, 3]"),
        Err(ConfigError::Other(_))
    ));
    assert!(matches!(
        p.load_payload("{\"a\": 7}"),
        Err(ConfigError::Other(_))
    ));
}

#[test]
fn saved_payload_is_real_object_text() {
    // Fails if the encoder were to hand back anything but the bulk
    // JSON object form of the store.
    let p = InMemoryProvider::new();
    assert_eq!(p.save_payload().unwrap(), "{}");
    p.put("k", "1").unwrap();
    let payload = p.save_payload().unwrap();
    assert!(payload.starts_with('{'));
    let parsed: serde_json::Value = serde_json::from_str(&payload).unwrap();
    assert_eq!(parsed["k"], "1");
}

#[test]
fn loaded_values_are_parsed_not_copied() {
    // Fails if the decoder were to hand its argument back unchanged:
    // the JSON quoting must be undone by a real parse.
    let p = InMemoryProvider::new();
    p.load_payload("{\"a\": \"hello\"}").unwrap();
    assert_eq!(p.get("a").unwrap(), "hello");
}
