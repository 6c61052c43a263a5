use vault::store::{parse_u32, Entry, EntryStore, ReadQuery, Setting, StoreError};

fn entry(timestamp_ms_utc: i64) -> Entry {
    Entry {
        timestamp_ms_utc,
        offset_utc_mins: 0,
        contents: vec![1, 2, 3],
    }
}

fn setting(key: &str, value: &str) -> Setting {
    Setting {
        key: key.to_owned(),
        value: value.to_owned(),
    }
}

fn query(offset: Option<usize>, limit: Option<usize>) -> ReadQuery {
    ReadQuery { offset, limit }
}

fn timestamps(store: &EntryStore, offset: Option<usize>, limit: Option<usize>) -> Vec<i64> {
    store
        .get_posts(&query(offset, limit))
        .unwrap()
        .iter()
        .map(|e| e.timestamp_ms_utc)
        .collect()
}

#[test]
fn initialize_holds_exactly_version_and_public_key() {
    let key = vault::vault::SealedBoxPrivateKey::generate();
    let store = EntryStore::initialize(key.public());

    assert_eq!(store.get_version().unwrap(), 1);
    assert!(!store.needs_upgrade().unwrap());
    assert!(store.get_posts(&query(None, None)).unwrap().is_empty());

    let rows = store.settings();
    assert_eq!(rows.len(), 2);
    assert_eq!(rows[0].key, "version");
    assert_eq!(rows[0].value, "1");
    assert_eq!(rows[1].key, "publicKey");
    assert_eq!(rows[1].value, key.public().to_base58());

    // The stored row parses back to the very key the store was set up with.
    assert_eq!(
        store.public_key().unwrap().to_base58(),
        key.public().to_base58()
    );
}

#[test]
fn initialized_public_key_is_write_once() {
    let key = vault::vault::SealedBoxPrivateKey::generate();
    let mut store = EntryStore::initialize(key.public());
    assert_eq!(
        store
            .write_setting("publicKey".to_owned(), "other".to_owned())
            .unwrap_err(),
        StoreError::StorageConflict
    );
    assert_eq!(store.read_setting("publicKey").unwrap(), &key.public().to_base58());
}

#[test]
fn new_store_is_current() {
    let store = EntryStore::new();
    assert_eq!(store.get_version().unwrap(), 1);
    assert!(!store.needs_upgrade().unwrap());
    assert!(store.get_posts(&query(None, None)).unwrap().is_empty());
}

#[test]
fn entries_come_back_newest_first() {
    let mut store = EntryStore::new();
    for t in [30, 10, 50, 20, 40] {
        store.write_entry(entry(t)).unwrap();
    }
    assert_eq!(timestamps(&store, None, None), vec![50, 40, 30, 20, 10]);
}

#[test]
fn page_counts_follow_the_law() {
    let mut store = EntryStore::new();
    for t in 1..=7 {
        store.write_entry(entry(t)).unwrap();
    }
    // min(limit, max(0, n - offset)) for n = 7
    assert_eq!(timestamps(&store, Some(0), Some(7)).len(), 7);
    assert_eq!(timestamps(&store, Some(0), Some(3)).len(), 3);
    assert_eq!(timestamps(&store, Some(5), Some(3)).len(), 2);
    assert_eq!(timestamps(&store, Some(7), Some(3)).len(), 0);
    assert_eq!(timestamps(&store, Some(100), Some(3)).len(), 0);
    assert_eq!(timestamps(&store, Some(2), Some(0)).len(), 0);
}

#[test]
fn consecutive_pages_concatenate() {
    let mut store = EntryStore::new();
    for t in 1..=7 {
        store.write_entry(entry(t)).unwrap();
    }
    let mut joined = timestamps(&store, Some(0), Some(3));
    joined.extend(timestamps(&store, Some(3), Some(4)));
    assert_eq!(joined, timestamps(&store, Some(0), Some(7)));
}

#[test]
fn default_limit_is_fifty() {
    let mut store = EntryStore::new();
    for t in 1..=60 {
        store.write_entry(entry(t)).unwrap();
    }
    assert_eq!(timestamps(&store, None, None).len(), 50);
    assert_eq!(timestamps(&store, Some(50), None).len(), 10);
}

#[test]
fn the_largest_limit_is_harmless() {
    let mut store = EntryStore::new();
    for t in 1..=3 {
        store.write_entry(entry(t)).unwrap();
    }
    assert_eq!(timestamps(&store, Some(0), Some(usize::MAX)), vec![3, 2, 1]);
    assert_eq!(timestamps(&store, Some(usize::MAX), Some(usize::MAX)), Vec::<i64>::new());
}

#[test]
fn duplicate_timestamp_is_a_conflict() {
    let mut store = EntryStore::new();
    store.write_entry(entry(123)).unwrap();
    let second = Entry {
        timestamp_ms_utc: 123,
        offset_utc_mins: 60,
        contents: vec![9],
    };
    assert_eq!(
        store.write_entry(second).unwrap_err(),
        StoreError::StorageConflict
    );
    assert_eq!(timestamps(&store, None, None), vec![123]);
}

#[test]
fn version_two_refuses_everything() {
    let store = EntryStore::load(vec![setting("version", "2")], vec![]).unwrap();
    assert!(store.needs_upgrade().unwrap());
    assert_eq!(
        store.get_posts(&query(None, None)).unwrap_err(),
        StoreError::SchemaVersionMismatch
    );
    let mut store = store;
    assert_eq!(
        store.write_entry(entry(1)).unwrap_err(),
        StoreError::SchemaVersionMismatch
    );
}

#[test]
fn version_zero_also_needs_upgrade() {
    let store = EntryStore::load(vec![setting("version", "0")], vec![]).unwrap();
    assert!(store.needs_upgrade().unwrap());
}

#[test]
fn missing_or_bad_version_rows() {
    let store = EntryStore::load(vec![], vec![]).unwrap();
    assert_eq!(store.get_version().unwrap_err(), StoreError::NotFound);
    assert_eq!(store.needs_upgrade().unwrap_err(), StoreError::NotFound);

    let store = EntryStore::load(vec![setting("version", "soon")], vec![]).unwrap();
    assert_eq!(store.get_version().unwrap_err(), StoreError::MalformedValue);
}

#[test]
fn settings_are_write_once() {
    let mut store = EntryStore::new();
    store
        .write_setting("publicKey".to_owned(), "abc".to_owned())
        .unwrap();
    assert_eq!(store.read_setting("publicKey").unwrap(), "abc");
    assert_eq!(
        store
            .write_setting("publicKey".to_owned(), "xyz".to_owned())
            .unwrap_err(),
        StoreError::StorageConflict
    );
    assert_eq!(store.read_setting("publicKey").unwrap(), "abc");
    assert_eq!(
        store.read_setting("privateKey").unwrap_err(),
        StoreError::NotFound
    );
}

#[test]
fn stored_public_key_round_trips() {
    let mut store = EntryStore::new();
    let key = vault::vault::SealedBoxPrivateKey::generate();
    store
        .write_setting("publicKey".to_owned(), key.public().to_base58())
        .unwrap();
    assert_eq!(
        store.public_key().unwrap().to_base58(),
        key.public().to_base58()
    );
}

#[test]
fn bad_stored_public_key_is_malformed() {
    let mut store = EntryStore::new();
    assert!(matches!(store.public_key(), Err(StoreError::NotFound)));
    store
        .write_setting("publicKey".to_owned(), "he11owor1d".to_owned())
        .unwrap();
    assert!(matches!(store.public_key(), Err(StoreError::MalformedValue)));
}

#[test]
fn load_rejects_bad_shapes() {
    // Entries must be strictly descending by timestamp.
    assert!(EntryStore::load(vec![], vec![entry(1), entry(2)]).is_none());
    assert!(EntryStore::load(vec![], vec![entry(2), entry(2)]).is_none());
    assert!(EntryStore::load(vec![], vec![entry(2), entry(1)]).is_some());
    // Settings keys must be unique.
    assert!(EntryStore::load(
        vec![setting("version", "1"), setting("version", "2")],
        vec![]
    )
    .is_none());
}

#[test]
fn parse_u32_exact_values() {
    assert_eq!(parse_u32("0"), Some(0));
    assert_eq!(parse_u32("1"), Some(1));
    assert_eq!(parse_u32("42"), Some(42));
    assert_eq!(parse_u32("0042"), Some(42));
    assert_eq!(parse_u32("4294967295"), Some(u32::MAX));
    assert_eq!(parse_u32("4294967296"), None);
    assert_eq!(parse_u32(""), None);
    assert_eq!(parse_u32("12a"), None);
    assert_eq!(parse_u32("-1"), None);
    assert_eq!(parse_u32("+1"), None);
}
