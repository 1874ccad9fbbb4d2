use duvua_core::cache::{decode_record, encode_record, CorrelationCache, CorrelationRecord};
use duvua_core::errors::BotError;
use duvua_core::kv::MemoryKvStore;

#[test]
fn issue_then_immediate_resolve_returns_issued_state() {
    let mut cache = CorrelationCache::new();
    let record = CorrelationRecord::new(11, 22, String::from("tok-abc"));
    let id = cache.issue(&record, 10, 100).unwrap();
    assert_eq!(id.chars().count(), 30);
    let resolved = cache.resolve(&id, 100).unwrap();
    assert_eq!(resolved.issuer_id, 11);
    assert_eq!(resolved.target_id, 22);
    assert_eq!(resolved.reply_token, "tok-abc");
}

#[test]
fn resolve_unknown_id_fails() {
    let mut cache = CorrelationCache::new();
    let err = cache.resolve(&String::from("never-issued"), 0).unwrap_err();
    assert_eq!(err, BotError::ExpiredOrUnknown);
}

#[test]
fn resolve_after_ttl_elapsed_fails() {
    let mut cache = CorrelationCache::new();
    let record = CorrelationRecord::new(1, 2, String::from("t"));
    let id = cache.issue(&record, 10, 50).unwrap();
    // The record expires at instant 60; from then on it is unretrievable.
    let err = cache.resolve(&id, 60).unwrap_err();
    assert_eq!(err, BotError::ExpiredOrUnknown);
}

#[test]
fn resolve_twice_consumes_on_read() {
    let mut cache = CorrelationCache::new();
    let record = CorrelationRecord::new(1, 2, String::from("once"));
    let id = cache.issue(&record, 10, 0).unwrap();
    assert!(cache.resolve(&id, 1).is_ok());
    let err = cache.resolve(&id, 1).unwrap_err();
    assert_eq!(err, BotError::ExpiredOrUnknown);
}

#[test]
fn ten_second_ttl_scenario() {
    // Issue with a 10-second TTL carrying (issuer=A, target=B, token=T);
    // resolve at t+1 succeeds with the same triple; resolve again at t+2
    // (after consume-on-read) fails with ExpiredOrUnknown.
    let t = 1000;
    let mut cache = CorrelationCache::new();
    let record = CorrelationRecord::new(0xA, 0xB, String::from("T"));
    let id = cache.issue(&record, 10, t).unwrap();
    let first = cache.resolve(&id, t + 1).unwrap();
    assert_eq!(first.issuer_id, 0xA);
    assert_eq!(first.target_id, 0xB);
    assert_eq!(first.reply_token, "T");
    let second = cache.resolve(&id, t + 2);
    assert_eq!(second.unwrap_err(), BotError::ExpiredOrUnknown);
}

#[test]
fn distinct_ids_do_not_interfere() {
    let mut cache = CorrelationCache::new();
    let a = cache.issue(&CorrelationRecord::new(1, 2, String::from("a")), 10, 0).unwrap();
    let b = cache.issue(&CorrelationRecord::new(3, 4, String::from("b")), 10, 0).unwrap();
    assert_ne!(a, b);
    assert!(cache.resolve(&a, 1).is_ok());
    let still_there = cache.resolve(&b, 1).unwrap();
    assert_eq!(still_there.issuer_id, 3);
}

#[test]
fn codec_round_trip_with_multibyte_token() {
    let record = CorrelationRecord::new(u64::MAX, 0, String::from("h\u{e9}llo \u{1F642}"));
    let bytes = encode_record(&record);
    let back = decode_record(&bytes).unwrap();
    assert_eq!(back.issuer_id, u64::MAX);
    assert_eq!(back.target_id, 0);
    assert_eq!(back.reply_token, "h\u{e9}llo \u{1F642}");
}

#[test]
fn decode_rejects_malformed_bytes() {
    // Too short to carry the two principal ids.
    assert!(decode_record(&vec![0u8; 15]).is_none());
    // A credential part that is not valid UTF-8.
    let mut bytes = vec![0u8; 16];
    bytes.push(0xff);
    bytes.push(0xfe);
    assert!(decode_record(&bytes).is_none());
}

#[test]
fn kv_store_expiry_boundary() {
    let mut store = MemoryKvStore::new();
    store.set_ttl(String::from("component/x"), vec![1, 2, 3], 10, 0);
    assert_eq!(store.get(&String::from("component/x"), 9), Some(vec![1, 2, 3]));
    assert_eq!(store.get(&String::from("component/x"), 10), None);
    assert_eq!(store.get(&String::from("other"), 0), None);
}

#[test]
fn kv_store_overwrite_and_remove() {
    let mut store = MemoryKvStore::new();
    let key = String::from("component/y");
    store.set_ttl(key.clone(), vec![1], 10, 0);
    store.set_ttl(key.clone(), vec![2], 10, 0);
    assert_eq!(store.get(&key, 5), Some(vec![2]));
    store.remove(&key);
    assert_eq!(store.get(&key, 5), None);
}

#[test]
fn error_messages_are_distinct() {
    let all = [
        BotError::InvalidIdentifier,
        BotError::NotFound,
        BotError::ExpiredOrUnknown,
        BotError::StorageError,
        BotError::StorageUnavailable,
    ];
    for (i, a) in all.iter().enumerate() {
        assert!(!a.message().is_empty());
        for (j, b) in all.iter().enumerate() {
            if i != j {
                assert_ne!(a.message(), b.message());
            }
        }
    }
}
