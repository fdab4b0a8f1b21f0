use leptos_sync_core::crdt_store::{CollectionMetadata, CrdtStore, PeerInfo};
use leptos_sync_core::index::{BTreeIndex, HashIndex, Index, IndexConfig, IndexError, IndexType, IndexedStorage};
use leptos_sync_core::storage::{IndexedDbError, IndexedDbStorage, MemoryStorage, Storage, StorageError};

fn config(name: &str, index_type: IndexType, unique: bool, sparse: bool) -> IndexConfig {
    IndexConfig { name: name.to_string(), index_type, unique, sparse }
}

#[test]
fn test_memory_storage_basic_operations() {
    let mut storage = MemoryStorage::new();
    assert!(storage.set("key1", b"value1".to_vec()).is_ok());
    assert_eq!(storage.get("key1").unwrap(), Some(b"value1".to_vec()));
    assert_eq!(storage.get("nonexistent").unwrap(), None);
    assert!(storage.remove("key1").is_ok());
    assert_eq!(storage.get("key1").unwrap(), None);
}

#[test]
fn test_memory_storage_keys_and_length() {
    let mut storage = MemoryStorage::new();
    assert_eq!(storage.len().unwrap(), 0);
    assert!(storage.is_empty().unwrap());
    storage.set("key1", b"value1".to_vec()).unwrap();
    storage.set("key2", b"value2".to_vec()).unwrap();
    assert_eq!(storage.len().unwrap(), 2);
    assert!(!storage.is_empty().unwrap());
    let keys = storage.keys().unwrap();
    assert_eq!(keys.len(), 2);
    assert!(keys.contains(&"key1".to_string()));
    assert!(keys.contains(&"key2".to_string()));
}

#[test]
fn test_memory_storage_clear() {
    let mut storage = MemoryStorage::new();
    storage.set("key1", b"value1".to_vec()).unwrap();
    storage.set("key2", b"value2".to_vec()).unwrap();
    assert!(storage.clear().is_ok());
    assert_eq!(storage.len().unwrap(), 0);
    assert!(storage.is_empty().unwrap());
}

#[test]
fn test_memory_storage_contains_key() {
    let mut storage = MemoryStorage::new();
    assert!(!storage.contains_key("key1").unwrap());
    storage.set("key1", b"value1".to_vec()).unwrap();
    assert!(storage.contains_key("key1").unwrap());
    storage.remove("key1").unwrap();
    assert!(!storage.contains_key("key1").unwrap());
}

#[test]
fn write_then_read_and_overwrite() {
    let mut storage = Storage::memory();
    storage.set("a", vec![1]).unwrap();
    storage.set("b", vec![2]).unwrap();
    assert_eq!(storage.get("a").unwrap(), Some(vec![1]));
    storage.set("a", vec![3]).unwrap();
    assert_eq!(storage.get("a").unwrap(), Some(vec![3]));
    assert_eq!(storage.get("b").unwrap(), Some(vec![2]));
    storage.remove("a").unwrap();
    assert_eq!(storage.get("a").unwrap(), None);
    assert_eq!(storage.get("b").unwrap(), Some(vec![2]));
    assert_eq!(storage.keys().unwrap(), vec!["b".to_string()]);
}

#[test]
fn indexeddb_storage_falls_back_to_memory() {
    let mut storage = Storage::indexeddb("app_db", 1).unwrap();
    assert!(storage.is_empty().unwrap());
    storage.set("k", vec![9, 9]).unwrap();
    assert_eq!(storage.get("k").unwrap(), Some(vec![9, 9]));
    assert!(storage.contains_key("k").unwrap());
    assert_eq!(storage.len().unwrap(), 1);
    storage.clear().unwrap();
    assert_eq!(storage.len().unwrap(), 0);
    assert!(Storage::indexeddb_default().is_ok());
}

#[test]
fn indexeddb_store_reports_no_indexeddb() {
    let mut db = IndexedDbStorage::new("db".to_string(), "store".to_string());
    assert_eq!(db.db_name(), "db");
    assert_eq!(db.store_name(), "store");
    assert!(!db.is_indexeddb_available());
    let stats = db.get_stats().unwrap();
    assert_eq!((stats.collections_count, stats.deltas_count, stats.peers_count), (0, 0, 0));
    db.store_metadata("c1", vec![1, 2]).unwrap();
    assert_eq!(db.get_metadata("c1").unwrap(), Some(vec![1, 2]));
    db.store_peer("p1", vec![3]).unwrap();
    assert_eq!(db.get_peer("p1").unwrap(), Some(vec![3]));
    assert_eq!(db.get_peer("p2").unwrap(), None);
    assert!(db.clear_all().is_ok());
    assert_eq!(db.get_metadata("c1").unwrap(), None);
}

#[test]
fn storage_error_messages() {
    assert_eq!(StorageError::NotFound("k".to_string()).message(), "Key not found: k");
    assert_eq!(StorageError::Serialization("x".to_string()).message(), "Serialization error: x");
    assert_eq!(StorageError::OperationFailed("y".to_string()).message(), "Storage operation failed: y");
    assert_eq!(StorageError::Unsupported("z".to_string()).message(), "Unsupported operation: z");
}

#[test]
fn indexeddb_errors_become_storage_errors() {
    let e: StorageError = IndexedDbError::QuotaExceeded.into();
    assert_eq!(e.message(), "Storage operation failed: Storage quota exceeded");
    let e: StorageError = IndexedDbError::VersionMismatch { expected: 3, actual: 12 }.into();
    assert_eq!(e.message(), "Storage operation failed: Version mismatch: expected 3, got 12");
    let e: StorageError = IndexedDbError::NotSupported("no".to_string()).into();
    assert!(matches!(e, StorageError::Unsupported(m) if m == "no"));
    let e: StorageError = IndexedDbError::MigrationFailed("m".to_string()).into();
    assert_eq!(e.message(), "Storage operation failed: Migration failed: m");
}

#[test]
fn test_index_creation() {
    let mut indexed = IndexedStorage::new(Storage::memory());
    assert!(indexed.create_index(config("test_index", IndexType::Hash, false, false)).is_ok());
    assert!(indexed.list_indices().contains(&"test_index".to_string()));
}

#[test]
fn test_duplicate_index() {
    let mut indexed = IndexedStorage::new(Storage::memory());
    let c = config("test_index", IndexType::Hash, false, false);
    assert!(indexed.create_index(c.clone()).is_ok());
    assert!(matches!(indexed.create_index(c), Err(IndexError::IndexAlreadyExists(n)) if n == "test_index"));
}

#[test]
fn test_index_drop() {
    let mut indexed = IndexedStorage::new(Storage::memory());
    indexed.create_index(config("test_index", IndexType::Hash, false, false)).unwrap();
    assert!(indexed.drop_index("test_index").is_ok());
    assert!(!indexed.list_indices().contains(&"test_index".to_string()));
    assert!(matches!(indexed.drop_index("test_index"), Err(IndexError::IndexNotFound(_))));
}

#[test]
fn full_text_index_is_refused() {
    let mut indexed = IndexedStorage::new(Storage::memory());
    assert!(matches!(
        indexed.create_index(config("ft", IndexType::FullText, false, false)),
        Err(IndexError::InvalidIndexValue)
    ));
    assert!(indexed.list_indices().is_empty());
}

#[test]
fn index_metadata_and_queries() {
    let mut indexed = IndexedStorage::new(Storage::memory());
    indexed.create_index_at(config("by_tag", IndexType::Hash, false, false), 1234).unwrap();
    indexed.create_index(config("by_date", IndexType::BTree, false, false)).unwrap();
    let meta = indexed.get_index_metadata("by_tag").unwrap();
    assert_eq!(meta.last_updated, 1234);
    assert_eq!(meta.entry_count, 0);
    assert_eq!(indexed.list_indices(), vec!["by_tag".to_string(), "by_date".to_string()]);
    assert_eq!(indexed.query_by_index("by_tag", "x").unwrap(), Vec::<String>::new());
    assert!(matches!(indexed.query_by_index("nope", "x"), Err(IndexError::IndexNotFound(_))));
    assert!(matches!(indexed.range_query("by_tag", "a", "z"), Err(IndexError::InvalidIndexValue)));
    assert_eq!(indexed.range_query("by_date", "a", "z").unwrap(), Vec::<String>::new());
    assert_eq!(indexed.get_index_stats("by_tag").unwrap().entry_count, 0);
}

#[test]
fn hash_index_finds_inserted_and_misses_removed() {
    let mut index = HashIndex::new("tags".to_string(), &config("tags", IndexType::Hash, false, false));
    index.insert("red", "doc1").unwrap();
    index.insert("red", "doc2").unwrap();
    index.insert("red", "doc1").unwrap();
    index.insert("blue", "doc3").unwrap();
    assert_eq!(index.get("red").unwrap(), vec!["doc1".to_string(), "doc2".to_string()]);
    index.remove("red", "doc1").unwrap();
    assert_eq!(index.get("red").unwrap(), vec!["doc2".to_string()]);
    index.remove("red", "doc2").unwrap();
    assert_eq!(index.get("red").unwrap(), Vec::<String>::new());
    assert_eq!(index.values().unwrap(), vec!["blue".to_string()]);
    assert_eq!(index.name(), "tags");
    assert_eq!(index.index_type(), IndexType::Hash);
}

#[test]
fn unique_and_sparse_rules() {
    let mut unique = HashIndex::new("u".to_string(), &config("u", IndexType::Hash, true, false));
    unique.insert("a", "d1").unwrap();
    assert!(matches!(unique.insert("a", "d2"), Err(IndexError::InvalidIndexValue)));
    assert!(matches!(unique.insert("", "d3"), Err(IndexError::InvalidIndexValue)));
    let mut sparse = HashIndex::new("s".to_string(), &config("s", IndexType::Hash, false, true));
    assert!(sparse.insert("", "d3").is_ok());
}

#[test]
fn btree_index_lists_values_in_order() {
    let mut index = BTreeIndex::new("dates".to_string(), &config("dates", IndexType::BTree, false, false));
    index.insert("2024-03", "a").unwrap();
    index.insert("2023-12", "b").unwrap();
    index.insert("2024-01", "c").unwrap();
    assert_eq!(
        index.values().unwrap(),
        vec!["2023-12".to_string(), "2024-01".to_string(), "2024-03".to_string()]
    );
    assert_eq!(index.index_type(), IndexType::BTree);
}

#[test]
fn index_stats_count_and_rank_values() {
    let mut index = HashIndex::new("t".to_string(), &config("t", IndexType::Hash, false, false));
    index.insert("a", "1").unwrap();
    index.insert("b", "1").unwrap();
    index.insert("b", "2").unwrap();
    index.insert("c", "1").unwrap();
    index.insert("c", "2").unwrap();
    index.insert("c", "3").unwrap();
    let stats = index.stats().unwrap();
    assert_eq!(stats.entry_count, 3);
    assert_eq!(stats.total_entries, 6);
    assert_eq!(
        stats.top_values,
        vec![("c".to_string(), 3), ("b".to_string(), 2), ("a".to_string(), 1)]
    );
    index.clear().unwrap();
    assert_eq!(index.stats().unwrap().entry_count, 0);
}

fn metadata(id: &str) -> CollectionMetadata {
    CollectionMetadata {
        id: id.to_string(),
        name: format!("Collection {}", id),
        crdt_type: "LwwMap".to_string(),
        version: 1,
        last_sync: 0,
        replica_count: 1,
    }
}

#[test]
fn test_crdt_delta_storage() {
    let mut store = CrdtStore::new();
    store.store_delta_at("todos", b"d1", "r1", "insert", 100).unwrap();
    store.store_delta_at("todos", b"d2", "r1", "update", 300).unwrap();
    store.store_delta_at("todos", b"d3", "r2", "update", 200).unwrap();
    store.store_delta_at("notes", b"n1", "r1", "insert", 150).unwrap();

    let all = store.get_deltas("todos", None, None).unwrap();
    let times: Vec<u64> = all.iter().map(|d| d.timestamp).collect();
    assert_eq!(times, vec![100, 200, 300]);
    assert_eq!(all[1].id, "todos#200#r2");

    let window = store.get_deltas("todos", Some(150), Some(300)).unwrap();
    assert_eq!(window.iter().map(|d| d.timestamp).collect::<Vec<_>>(), vec![200, 300]);

    let latest = store.get_latest_delta("todos").unwrap().unwrap();
    assert_eq!(latest.timestamp, 300);
    assert_eq!(latest.delta, b"d2".to_vec());
    assert!(store.get_latest_delta("none").unwrap().is_none());
}

#[test]
fn test_storage_compaction() {
    let mut store = CrdtStore::new();
    for (i, t) in [10u64, 40, 20, 50, 30].iter().enumerate() {
        store.store_delta_at("c", &[i as u8], "r", "op", *t).unwrap();
    }
    store.cleanup_old_deltas("c", 2).unwrap();
    let left: Vec<u64> = store.get_deltas("c", None, None).unwrap().iter().map(|d| d.timestamp).collect();
    assert_eq!(left, vec![40, 50]);
    assert_eq!(store.get_stats().unwrap().deltas_count, 2);
}

#[test]
fn test_peer_management() {
    let mut store = CrdtStore::new();
    let peer = PeerInfo { id: "peer1".to_string(), last_seen: 5, status: "online".to_string(), version: 1 };
    store.store_peer(&peer).unwrap();
    assert_eq!(store.get_peer("peer1").unwrap(), Some(peer));
    store.update_peer_last_seen_at("peer1", 99).unwrap();
    assert_eq!(store.get_peer("peer1").unwrap().unwrap().last_seen, 99);
    assert!(store.update_peer_last_seen_at("ghost", 1).is_ok());
    assert_eq!(store.list_peers().unwrap().len(), 1);
    assert!(store.get_peer("ghost").unwrap().is_none());
}

#[test]
fn collection_metadata_round_trip() {
    let mut store = CrdtStore::new();
    store.store_metadata(&metadata("a")).unwrap();
    store.store_metadata(&metadata("b")).unwrap();
    assert_eq!(store.get_metadata("a").unwrap(), Some(metadata("a")));
    let ids: Vec<String> = store.list_collections().unwrap().into_iter().map(|m| m.id).collect();
    assert_eq!(ids, vec!["a".to_string(), "b".to_string()]);
    let stats = store.get_stats().unwrap();
    assert_eq!(stats.collections_count, 2);
    store.clear_all().unwrap();
    assert_eq!(store.get_stats().unwrap().collections_count, 0);
}

#[test]
fn delta_ids_join_collection_time_and_replica() {
    assert_eq!(leptos_sync_core::crdt_store::delta_id("c", 0, "r"), "c#0#r");
    assert_eq!(leptos_sync_core::crdt_store::delta_id("todos", 1234567890, "abc"), "todos#1234567890#abc");
}

#[test]
fn test_storage_enum() {
    let mut storage = Storage::memory();
    assert!(storage.set("key1", b"value1".to_vec()).is_ok());
    assert_eq!(storage.get("key1").unwrap(), Some(b"value1".to_vec()));
    assert!(storage.remove("key1").is_ok());
    assert_eq!(storage.get("key1").unwrap(), None);
}

#[test]
fn test_memory_storage_operations() {
    let mut storage = MemoryStorage::new();
    let test_data = br#"{"id":"test1","value":42,"message":"Hello World"}"#.to_vec();
    storage.set("test_key", test_data.clone()).unwrap();
    assert_eq!(storage.get("test_key").unwrap(), Some(test_data.clone()));
    assert!(storage.keys().unwrap().contains(&"test_key".to_string()));
    storage.remove("test_key").unwrap();
    assert_eq!(storage.get("test_key").unwrap(), None);
    storage.set("key1", test_data.clone()).unwrap();
    storage.set("key2", test_data).unwrap();
    storage.clear().unwrap();
    assert!(storage.keys().unwrap().is_empty());
}

#[test]
fn test_storage_error_handling() {
    let mut storage = MemoryStorage::new();
    assert_eq!(storage.get("nonexistent").unwrap(), None);
    assert!(storage.remove("nonexistent").is_ok());
}

#[test]
fn test_indexed_db_storage_fallback() {
    let mut storage = IndexedDbStorage::new("test_db".to_string(), "test_store".to_string());
    let test_data = br#"{"id":"test1","value":42,"message":"Hello World"}"#.to_vec();
    storage.set("test_key", test_data.clone()).unwrap();
    assert_eq!(storage.get("test_key").unwrap(), Some(test_data));
}

#[test]
fn mod_test_indexeddb_storage_creation() {
    let storage = IndexedDbStorage::new("test_db".to_string(), "test_store".to_string());
    assert_eq!(storage.db_name(), "test_db");
    assert_eq!(storage.store_name(), "test_store");
    assert!(!storage.is_initialized());
    assert!(!storage.is_indexeddb_available());
}

#[test]
fn mod_test_indexeddb_storage_fallback() {
    let mut storage = IndexedDbStorage::new("test_db".to_string(), "test_store".to_string());
    assert!(storage.set("key1", b"\"value1\"".to_vec()).is_ok());
    assert_eq!(storage.get("key1").unwrap(), Some(b"\"value1\"".to_vec()));
    assert!(storage.remove("key1").is_ok());
    assert_eq!(storage.get("key1").unwrap(), None);
}

#[test]
fn mod_test_indexeddb_storage_stats() {
    let storage = IndexedDbStorage::new("test_db".to_string(), "test_store".to_string());
    let stats = storage.get_stats().unwrap();
    assert_eq!(stats.collections_count, 0);
    assert_eq!(stats.deltas_count, 0);
    assert_eq!(stats.peers_count, 0);
}

#[test]
fn initializing_keeps_the_contents_and_serves_from_memory() {
    let mut storage = IndexedDbStorage::new("db".to_string(), "store".to_string());
    storage.set("k", vec![1]).unwrap();
    assert!(storage.initialize().is_ok());
    assert!(storage.is_initialized());
    assert!(storage.initialize().is_ok());
    assert_eq!(storage.get("k").unwrap(), Some(vec![1]));
}

#[test]
fn test_indexeddb_storage_fallback_non_wasm() {
    let mut storage = IndexedDbStorage::new("test_db".to_string(), "test_store".to_string());
    let test_data = br#"{"id":"non_wasm_test","title":"Non-WASM Test","content":"Testing fallback behavior","version":1}"#.to_vec();
    storage.set("test_key", test_data.clone()).unwrap();
    assert_eq!(storage.get("test_key").unwrap(), Some(test_data));
}
