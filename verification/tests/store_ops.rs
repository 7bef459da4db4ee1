use outpost_config::provider::InMemoryProvider;
use outpost_config::{ConfigError, ConfigProvider};

#[test]
fn put_then_get_returns_the_stored_text() {
    let p = InMemoryProvider::new();
    p.put("answer", "42").unwrap();
    assert_eq!(p.get("answer").unwrap(), "42");
}

#[test]
fn typed_round_trip_through_the_codec() {
    // A typed value crosses the codec boundary: encoded before put,
    // decoded after get.
    let p = InMemoryProvider::new();
    let encoded_num = serde_json::to_string(&5i32).unwrap();
    p.put("n", &encoded_num).unwrap();
    let got_num: i32 = serde_json::from_str(&p.get("n").unwrap()).unwrap();
    assert_eq!(got_num, 5);

    let encoded_text = serde_json::to_string("hi there").unwrap();
    p.put("s", &encoded_text).unwrap();
    let got_text: String = serde_json::from_str(&p.get("s").unwrap()).unwrap();
    assert_eq!(got_text, "hi there");
}

#[test]
fn absent_key_is_not_found() {
    let p = InMemoryProvider::new();
    assert!(!p.has("missing").unwrap());
    assert!(matches!(p.get("missing"), Err(ConfigError::NotFound)));
}

#[test]
fn deleted_key_is_absent() {
    let p = InMemoryProvider::new();
    p.put("k", "1").unwrap();
    assert!(p.has("k").unwrap());
    p.delete("k").unwrap();
    assert!(!p.has("k").unwrap());
    assert!(matches!(p.get("k"), Err(ConfigError::NotFound)));
}

#[test]
fn delete_is_idempotent_and_tolerates_absence() {
    let p = InMemoryProvider::new();
    p.delete("never-put").unwrap();
    p.put("k", "1").unwrap();
    p.put("other", "2").unwrap();
    p.delete("k").unwrap();
    p.delete("k").unwrap();
    assert!(!p.has("k").unwrap());
    assert_eq!(p.get("other").unwrap(), "2");
    assert_eq!(p.list().unwrap(), vec!["other".to_string()]);
}

#[test]
fn put_overwrites_the_previous_value() {
    let p = InMemoryProvider::new();
    p.put("k", "1").unwrap();
    p.put("k", "2").unwrap();
    assert_eq!(p.get("k").unwrap(), "2");
    assert_eq!(p.list().unwrap(), vec!["k".to_string()]);
}

#[test]
fn list_matches_has_after_mixed_operations() {
    let p = InMemoryProvider::new();
    p.put("a", "1").unwrap();
    p.put("b", "2").unwrap();
    p.put("c", "3").unwrap();
    p.delete("b").unwrap();
    p.put("d", "4").unwrap();
    p.delete("zzz").unwrap();
    let mut keys = p.list().unwrap();
    keys.sort();
    assert_eq!(
        keys,
        vec!["a".to_string(), "c".to_string(), "d".to_string()]
    );
    for k in &keys {
        assert!(p.has(k).unwrap());
    }
    assert!(!p.has("b").unwrap());
}

#[test]
fn list_of_a_fresh_store_is_empty() {
    let p = InMemoryProvider::new();
    assert!(p.list().unwrap().is_empty());
}

#[test]
fn overlapping_readers_agree() {
    let p = InMemoryProvider::new();
    p.put("a", "1").unwrap();
    let (found, present) = p.consistent_read_pair("a");
    assert_eq!(found.as_deref(), Some("1"));
    assert!(present);
    let (found, present) = p.consistent_read_pair("b");
    assert!(found.is_none());
    assert!(!present);
}

#[test]
fn errors_describe_their_cause() {
    assert_eq!(ConfigError::NotFound.describe(), "not found");
    assert_eq!(
        ConfigError::Other("boom".to_string()).describe(),
        "other: boom"
    );
}
