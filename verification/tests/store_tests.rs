use iot_core::errors::DbError;
use iot_core::http::sensor_detail_response;
use iot_core::store::MemoryStore;
use iot_core::uuid_text::parse_uuid;

const KITCHEN_ID: u128 = 0x550e8400e29b41d4a716446655440000;

#[test]
fn register_then_read() {
    let mut store = MemoryStore::new();
    let id = parse_uuid("550e8400-e29b-41d4-a716-446655440000").unwrap();
    assert_eq!(id, KITCHEN_ID);
    let s = store
        .register_sensor(id, String::from("kitchen"), 1700000000)
        .unwrap();
    assert_eq!(s.id, id);
    let (status, body) = sensor_detail_response(&store, id);
    assert_eq!(status, 200);
    assert_eq!(
        body,
        "{\"id\":\"550e8400-e29b-41d4-a716-446655440000\",\"label\":\"kitchen\",\"created_at\":1700000000}"
    );
}

#[test]
fn register_twice_first_label_wins() {
    let mut store = MemoryStore::new();
    let a = store.register_sensor(7, String::from("L1"), 10).unwrap();
    let b = store.register_sensor(7, String::from("L2"), 20).unwrap();
    assert_eq!(a.id, 7);
    assert_eq!(b.id, 7);
    assert_eq!(a.label, "L1");
    assert_eq!(b.label, "L1");
    assert_eq!(b.created_at, 10);
    let all = store.fetch_all().unwrap();
    assert_eq!(all.len(), 1);
    assert_eq!(all[0].label, "L1");
}

#[test]
fn ingest_and_history_values() {
    let mut store = MemoryStore::new();
    let sid: u128 = 42;
    let values = [12.5f64, 13.0, 12.7];
    for (i, v) in values.iter().enumerate() {
        store
            .save_entry(sid, v.to_bits(), (i + 1) as u128, 100 + i as i64)
            .unwrap();
    }
    let history = store.fetch_history(sid).unwrap();
    assert_eq!(history.len(), 3);
    let mut got: Vec<f64> = history.iter().map(|e| f64::from_bits(e.value_bits)).collect();
    got.sort_by(|a, b| a.partial_cmp(b).unwrap());
    assert_eq!(got, vec![12.5, 12.7, 13.0]);
}

#[test]
fn history_sorted_by_created_at() {
    let mut store = MemoryStore::new();
    let sid: u128 = 9;
    store.save_entry(sid, 1.0f64.to_bits(), 1, 300).unwrap();
    store.save_entry(sid, 2.0f64.to_bits(), 2, 100).unwrap();
    store.save_entry(sid, 3.0f64.to_bits(), 3, 200).unwrap();
    store.save_entry(77, 4.0f64.to_bits(), 4, 50).unwrap();
    let history = store.fetch_history(sid).unwrap();
    let stamps: Vec<i64> = history.iter().map(|e| e.created_at).collect();
    assert_eq!(stamps, vec![100, 200, 300]);
    let vals: Vec<f64> = history.iter().map(|e| f64::from_bits(e.value_bits)).collect();
    assert_eq!(vals, vec![2.0, 3.0, 1.0]);
}

#[test]
fn orphan_entry_kept_sensor_absent() {
    let mut store = MemoryStore::new();
    let x: u128 = 1234;
    store.save_entry(x, 5.5f64.to_bits(), 1, 60).unwrap();
    let history = store.fetch_history(x).unwrap();
    assert_eq!(history.len(), 1);
    assert_eq!(f64::from_bits(history[0].value_bits), 5.5);
    assert!(matches!(store.fetch_one(x), Err(DbError::NotFound)));
}

#[test]
fn duplicate_entry_id_not_inserted() {
    let mut store = MemoryStore::new();
    store.save_entry(1, 1.0f64.to_bits(), 5, 10).unwrap();
    let r = store.save_entry(1, 2.0f64.to_bits(), 5, 11);
    assert!(matches!(r, Err(DbError::NotInserted)));
    assert_eq!(store.fetch_history(1).unwrap().len(), 1);
}

#[test]
fn fetch_one_missing_is_not_found() {
    let store = MemoryStore::new();
    assert!(matches!(store.fetch_one(99), Err(DbError::NotFound)));
}
