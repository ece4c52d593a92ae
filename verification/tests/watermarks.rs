//! The watermark store: key format, persistence pairs, and lookups.

use shunbin::timestamp::{TimestampKey, TimestampManager, TimestampParseError};

#[test]
fn key_serializes_with_colon() {
    let k = TimestampKey { index: "docs".to_string(), source: "notes".to_string() };
    assert_eq!(k.serialize(), "docs:notes");
}

#[test]
fn key_deserializes_at_first_colon() {
    let k = TimestampKey::deserialize("docs:notes").expect("well-formed key");
    assert_eq!(k.index, "docs");
    assert_eq!(k.source, "notes");
    // the source name may itself hold the separator
    let k2 = TimestampKey::deserialize("docs:a:b").expect("well-formed key");
    assert_eq!(k2.index, "docs");
    assert_eq!(k2.source, "a:b");
    assert!(TimestampKey::deserialize("no separator").is_none());
    assert!(TimestampKey::deserialize("").is_none());
}

#[test]
fn key_round_trips() {
    let k = TimestampKey { index: "docs".to_string(), source: "my:notes".to_string() };
    let back = TimestampKey::deserialize(k.serialize().as_str()).expect("round trip");
    assert_eq!(back.index, "docs");
    assert_eq!(back.source, "my:notes");
}

#[test]
fn store_reads_persisted_pairs() {
    let entries = vec![
        ("docs:notes".to_string(), "1970-01-01T00:00:00Z".to_string()),
        ("docs:wiki".to_string(), "2024-01-01T00:00:00Z".to_string()),
    ];
    let m = TimestampManager::from_entries(&entries).expect("well-formed table");
    assert_eq!(m.get_timestamp("docs", "notes"), Some(0));
    assert_eq!(m.get_timestamp("docs", "wiki"), Some(1704067200));
    assert_eq!(m.get_timestamp("docs", "absent"), None);
}

#[test]
fn store_rejects_malformed_key() {
    let entries = vec![("no separator".to_string(), "1970-01-01T00:00:00Z".to_string())];
    match TimestampManager::from_entries(&entries) {
        Err(TimestampParseError::MalformedKey { key }) => assert_eq!(key, "no separator"),
        other => panic!("expected a malformed-key failure, got {:?}", other),
    }
}

#[test]
fn store_rejects_malformed_timestamp() {
    let entries = vec![("docs:notes".to_string(), "not a time".to_string())];
    match TimestampManager::from_entries(&entries) {
        Err(TimestampParseError::MalformedTimestamp { value }) => assert_eq!(value, "not a time"),
        other => panic!("expected a malformed-timestamp failure, got {:?}", other),
    }
}

#[test]
fn store_writes_persistable_pairs() {
    let mut m = TimestampManager::new();
    m.update("docs".to_string(), "notes".to_string(), 0);
    let entries = m.to_entries();
    assert_eq!(entries.len(), 1);
    assert_eq!(entries[0].0, "docs:notes");
    assert_eq!(entries[0].1, "1970-01-01T00:00:00+00:00");
}

#[test]
fn store_update_replaces_and_keeps_others() {
    let mut m = TimestampManager::new();
    m.update("docs".to_string(), "notes".to_string(), 10);
    m.update("docs".to_string(), "wiki".to_string(), 20);
    m.update("docs".to_string(), "notes".to_string(), 30);
    assert_eq!(m.get_timestamp("docs", "notes"), Some(30));
    assert_eq!(m.get_timestamp("docs", "wiki"), Some(20));
    assert_eq!(m.to_entries().len(), 2);
}

#[test]
fn persisted_pairs_round_trip_through_the_store() {
    let mut m = TimestampManager::new();
    m.update("docs".to_string(), "notes".to_string(), 1704067200);
    let back = TimestampManager::from_entries(&m.to_entries()).expect("own output parses");
    assert_eq!(back.get_timestamp("docs", "notes"), Some(1704067200));
}
