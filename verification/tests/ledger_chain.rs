use pilgrim::store::{AppendOnlyStore, StoreRecord};

fn filled_store() -> AppendOnlyStore {
    let mut store = AppendOnlyStore::open();
    store.append_json("receipt", "{\"run\":1}");
    store.append_json("receipt", "{\"run\":2}");
    store.append_json("drift", "{\"domain\":\"demo\"}");
    store
}

fn flip_first_char(s: &str) -> String {
    let replacement = if s.starts_with('0') { "1" } else { "0" };
    format!("{}{}", replacement, &s[1..])
}

#[test]
fn appended_chain_verifies() {
    let store = filled_store();
    assert_eq!(store.len(), 3);
    assert!(store.verify());
    let records = store.records();
    assert_eq!(records[0].prev_hash, "GENESIS");
    assert_eq!(records[1].prev_hash, records[0].record_hash);
    assert_eq!(records[2].prev_hash, records[1].record_hash);
    assert_eq!(records[0].index, 0);
    assert_eq!(records[1].index, 1);
    assert_eq!(records[2].index, 2);
}

#[test]
fn empty_chain_verifies() {
    assert!(AppendOnlyStore::open().verify());
}

#[test]
fn append_returns_the_stored_record() {
    let mut store = AppendOnlyStore::open();
    let rec = store.append_json("receipt", "payload");
    assert_eq!(rec.index, 0);
    assert_eq!(rec.kind, "receipt");
    assert_eq!(rec.payload_json, "payload");
    assert_eq!(rec.prev_hash, "GENESIS");
    assert_eq!(&rec, &store.records()[0]);
}

#[test]
fn flipped_payload_breaks_the_chain() {
    let store = filled_store();
    let mut records: Vec<StoreRecord> = store.records().clone();
    records[1].payload_json = "{\"run\":9}".to_string();
    assert!(!AppendOnlyStore::from_records(records).verify());
}

#[test]
fn flipped_prev_hash_breaks_the_chain() {
    let store = filled_store();
    let mut records: Vec<StoreRecord> = store.records().clone();
    records[2].prev_hash = flip_first_char(&records[2].prev_hash);
    assert!(!AppendOnlyStore::from_records(records).verify());
}

#[test]
fn flipped_record_hash_breaks_the_chain() {
    let store = filled_store();
    let mut records: Vec<StoreRecord> = store.records().clone();
    records[0].record_hash = flip_first_char(&records[0].record_hash);
    assert!(!AppendOnlyStore::from_records(records).verify());
}

#[test]
fn reloaded_untampered_chain_still_verifies() {
    let store = filled_store();
    let records: Vec<StoreRecord> = store.records().clone();
    let mut reopened = AppendOnlyStore::from_records(records);
    assert!(reopened.verify());
    reopened.append_json("receipt", "{\"run\":4}");
    assert!(reopened.verify());
    assert_eq!(reopened.len(), 4);
}
