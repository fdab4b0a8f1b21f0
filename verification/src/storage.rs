//! Key-value storage of serialized values: the in-memory store and the
//! IndexedDB store, which falls back to memory where IndexedDB is absent.

use crate::crdt_store::StorageStats;
use crate::keyed::KeyedMap;
use vstd::prelude::*;
use vstd::string::*;

verus! {

#[derive(Debug)]
pub enum StorageError {
    NotFound(String),
    Serialization(String),
    OperationFailed(String),
    Unsupported(String),
}

impl StorageError {
    /// The text the error displays.
    pub fn message(&self) -> (r: String)
        ensures
            r@ == match self {
                StorageError::NotFound(s) => "Key not found: "@ + s@,
                StorageError::Serialization(s) => "Serialization error: "@ + s@,
                StorageError::OperationFailed(s) => "Storage operation failed: "@ + s@,
                StorageError::Unsupported(s) => "Unsupported operation: "@ + s@,
            },
    {
        match self {
            StorageError::NotFound(s) => String::from_str("Key not found: ").concat(s.as_str()),
            StorageError::Serialization(s) => String::from_str("Serialization error: ").concat(
                s.as_str(),
            ),
            StorageError::OperationFailed(s) => String::from_str("Storage operation failed: ").concat(
                s.as_str(),
            ),
            StorageError::Unsupported(s) => String::from_str("Unsupported operation: ").concat(
                s.as_str(),
            ),
        }
    }
}

/// Errors of the IndexedDB backend.
#[derive(Debug)]
pub enum IndexedDbError {
    NotSupported(String),
    DatabaseError(String),
    TransactionError(String),
    ObjectStoreError(String),
    RequestError(String),
    SerializationError(String),
    OperationFailed(String),
    QuotaExceeded,
    DatabaseCorrupted(String),
    MigrationFailed(String),
    VersionMismatch { expected: u32, actual: u32 },
}

impl IndexedDbError {
    /// The storage error this error becomes.
    pub open spec fn spec_to_storage(self) -> StorageError {
        match self {
            IndexedDbError::NotSupported(m) => StorageError::Unsupported(m),
            IndexedDbError::DatabaseError(m) => StorageError::OperationFailed(m),
            IndexedDbError::TransactionError(m) => StorageError::OperationFailed(m),
            IndexedDbError::ObjectStoreError(m) => StorageError::OperationFailed(m),
            IndexedDbError::RequestError(m) => StorageError::OperationFailed(m),
            IndexedDbError::SerializationError(m) => StorageError::Serialization(m),
            IndexedDbError::OperationFailed(m) => StorageError::OperationFailed(m),
            _ => StorageError::OperationFailed(arbitrary()),
        }
    }

    /// The message of the storage error that the variants with a fixed text become.
    pub open spec fn spec_storage_message(self) -> Seq<char> {
        match self {
            IndexedDbError::QuotaExceeded => "Storage quota exceeded"@,
            IndexedDbError::DatabaseCorrupted(m) => "Database corrupted: "@ + m@,
            IndexedDbError::MigrationFailed(m) => "Migration failed: "@ + m@,
            IndexedDbError::VersionMismatch { expected, actual } => "Version mismatch: expected "@
                + crate::text::decimal(expected as nat) + ", got "@
                + crate::text::decimal(actual as nat),
            _ => Seq::empty(),
        }
    }

    /// Whether the error carries its own message into the storage error.
    pub open spec fn keeps_message(self) -> bool {
        !(self is QuotaExceeded || self is DatabaseCorrupted || self is MigrationFailed
            || self is VersionMismatch)
    }
}

impl From<IndexedDbError> for StorageError {
    fn from(err: IndexedDbError) -> (r: Self)
        ensures
            err.keeps_message() ==> r == err.spec_to_storage(),
            !err.keeps_message() ==> (r matches StorageError::OperationFailed(m) && m@
                == err.spec_storage_message()),
    {
        match err {
            IndexedDbError::NotSupported(msg) => StorageError::Unsupported(msg),
            IndexedDbError::DatabaseError(msg) => StorageError::OperationFailed(msg),
            IndexedDbError::TransactionError(msg) => StorageError::OperationFailed(msg),
            IndexedDbError::ObjectStoreError(msg) => StorageError::OperationFailed(msg),
            IndexedDbError::RequestError(msg) => StorageError::OperationFailed(msg),
            IndexedDbError::SerializationError(msg) => StorageError::Serialization(msg),
            IndexedDbError::OperationFailed(msg) => StorageError::OperationFailed(msg),
            IndexedDbError::QuotaExceeded => StorageError::OperationFailed(
                String::from_str("Storage quota exceeded"),
            ),
            IndexedDbError::DatabaseCorrupted(msg) => StorageError::OperationFailed(
                String::from_str("Database corrupted: ").concat(msg.as_str()),
            ),
            IndexedDbError::MigrationFailed(msg) => StorageError::OperationFailed(
                String::from_str("Migration failed: ").concat(msg.as_str()),
            ),
            IndexedDbError::VersionMismatch { expected, actual } => {
                let e = crate::text::format_decimal(expected as u64);
                let a = crate::text::format_decimal(actual as u64);
                StorageError::OperationFailed(
                    String::from_str("Version mismatch: expected ").concat(e.as_str()).concat(
                        ", got ",
                    ).concat(a.as_str()),
                )
            },
        }
    }
}

impl vstd::std_specs::convert::FromSpecImpl<IndexedDbError> for StorageError {
    /// The messages of some variants are built from text, so the conversion
    /// is described by the `from` contract rather than by one value.
    open spec fn obeys_from_spec() -> bool {
        false
    }

    open spec fn from_spec(v: IndexedDbError) -> StorageError {
        v.spec_to_storage()
    }
}

/// The stored contents: key to the bytes of the serialized value.
pub type Contents = Map<Seq<char>, Seq<u8>>;

/// The contents after storing `value` under `key`.
pub open spec fn contents_after_set(c: Contents, key: Seq<char>, value: Seq<u8>) -> Contents {
    c.insert(key, value)
}

/// The contents after removing `key`.
pub open spec fn contents_after_remove(c: Contents, key: Seq<char>) -> Contents {
    c.remove(key)
}

/// What a read of `key` gives back.
pub open spec fn read(c: Contents, key: Seq<char>) -> Option<Seq<u8>> {
    if c.contains_key(key) {
        Some(c[key])
    } else {
        None
    }
}

/// In-memory storage: each key holds the bytes of one serialized value.
#[derive(Debug)]
pub struct MemoryStorage {
    data: KeyedMap<String, Vec<u8>>,
}

impl MemoryStorage {
    pub closed spec fn wf(&self) -> bool {
        self.data.wf()
    }

    pub closed spec fn contents(&self) -> Contents {
        self.data.map().map_values(|v: Vec<u8>| v@)
    }

    /// The keys in the order they were first stored.
    pub closed spec fn key_order(&self) -> Seq<Seq<char>> {
        self.data.key_seq()
    }

    pub fn new() -> (r: Self)
        ensures
            r.wf(),
            r.contents() == Contents::empty(),
            r.key_order() == Seq::<Seq<char>>::empty(),
    {
        let r = MemoryStorage { data: KeyedMap::new() };
        assert(r.contents() =~= Contents::empty());
        r
    }

    /// Stores the serialized value under the key.
    pub fn set(&mut self, key: &str, value: Vec<u8>) -> (r: Result<(), StorageError>)
        requires
            old(self).wf(),
        ensures
            final(self).wf(),
            r is Ok,
            final(self).contents() == contents_after_set(old(self).contents(), key@, value@),
            old(self).contents().contains_key(key@) ==> final(self).key_order() == old(self).key_order(),
            !old(self).contents().contains_key(key@) ==> final(self).key_order() == old(self).key_order().push(key@),
    {
        let ghost v = value@;
        self.data.insert(String::from_str(key), value);
        assert(self.contents() =~= contents_after_set(old(self).contents(), key@, v));
        Ok(())
    }

    /// The bytes stored under the key, if any.
    pub fn get(&self, key: &str) -> (r: Result<Option<Vec<u8>>, StorageError>)
        requires
            self.wf(),
        ensures
            r matches Ok(found) && match found {
                Some(v) => read(self.contents(), key@) == Some(v@),
                None => read(self.contents(), key@) is None,
            },
    {
        let k = String::from_str(key);
        match self.data.get(&k) {
            Some(v) => Ok(Some(v.clone())),
            None => Ok(None),
        }
    }

    pub fn remove(&mut self, key: &str) -> (r: Result<(), StorageError>)
        requires
            old(self).wf(),
        ensures
            final(self).wf(),
            r is Ok,
            final(self).contents() == contents_after_remove(old(self).contents(), key@),
    {
        let k = String::from_str(key);
        let _ = self.data.remove(&k);
        assert(self.contents() =~= contents_after_remove(old(self).contents(), key@));
        Ok(())
    }

    /// All keys, in the order they were first stored.
    pub fn keys(&self) -> (r: Result<Vec<String>, StorageError>)
        requires
            self.wf(),
        ensures
            r matches Ok(ks) && ks@.map_values(|k: String| k@) == self.key_order()
                && ks@.map_values(|k: String| k@).to_set() == self.contents().dom()
                && ks@.map_values(|k: String| k@).no_duplicates(),
    {
        let ks = self.data.keys();
        proof {
            self.data.lemma_key_seq_contains(Seq::<char>::empty());
            assert(self.contents().dom() =~= self.data.map().dom());
        }
        Ok(ks)
    }

    pub fn contains_key(&self, key: &str) -> (r: Result<bool, StorageError>)
        requires
            self.wf(),
        ensures
            r matches Ok(b) && b == self.contents().contains_key(key@),
    {
        let k = String::from_str(key);
        Ok(self.data.contains_key(&k))
    }

    pub fn len(&self) -> (r: Result<usize, StorageError>)
        requires
            self.wf(),
        ensures
            r matches Ok(n) && n == self.contents().len(),
    {
        proof {
            assert(self.contents().dom() =~= self.data.map().dom());
        }
        Ok(self.data.len())
    }

    pub fn is_empty(&self) -> (r: Result<bool, StorageError>)
        requires
            self.wf(),
        ensures
            r matches Ok(b) && b == (self.contents().len() == 0),
    {
        proof {
            assert(self.contents().dom() =~= self.data.map().dom());
        }
        Ok(self.data.len() == 0)
    }

    pub fn clear(&mut self) -> (r: Result<(), StorageError>)
        ensures
            final(self).wf(),
            r is Ok,
            final(self).contents() == Contents::empty(),
            final(self).key_order() == Seq::<Seq<char>>::empty(),
    {
        self.data.clear();
        assert(self.contents() =~= Contents::empty());
        Ok(())
    }
}

/// What a read gives back after a write: the written value under the
/// written key, and for any other key what was there before.
pub proof fn law_read_after_set(c: Contents, key: Seq<char>, value: Seq<u8>, other: Seq<char>)
    ensures
        read(contents_after_set(c, key, value), key) == Some(value),
        other != key ==> read(contents_after_set(c, key, value), other) == read(c, other),
{
}

/// After a removal the key reads as absent, and other keys are untouched.
pub proof fn law_read_after_remove(c: Contents, key: Seq<char>, other: Seq<char>)
    ensures
        read(contents_after_remove(c, key), key) is None,
        other != key ==> read(contents_after_remove(c, key), other) == read(c, other),
{
}

/// Writing the same key twice keeps only the second value.
pub proof fn law_set_overwrites(c: Contents, key: Seq<char>, v1: Seq<u8>, v2: Seq<u8>)
    ensures
        contents_after_set(contents_after_set(c, key, v1), key, v2) == contents_after_set(c, key, v2),
{
    assert(contents_after_set(contents_after_set(c, key, v1), key, v2) =~= contents_after_set(
        c,
        key,
        v2,
    ));
}

/// IndexedDB storage. Where IndexedDB cannot be opened (every target but
/// the browser) every operation is served by the in-memory fallback.
#[derive(Debug)]
pub struct IndexedDbStorage {
    db_name: String,
    store_name: String,
    fallback: MemoryStorage,
    initialized: bool,
}

impl IndexedDbStorage {
    pub closed spec fn wf(&self) -> bool {
        self.fallback.wf()
    }

    pub closed spec fn spec_db_name(&self) -> Seq<char> {
        self.db_name@
    }

    pub closed spec fn spec_store_name(&self) -> Seq<char> {
        self.store_name@
    }

    pub closed spec fn spec_initialized(&self) -> bool {
        self.initialized
    }

    pub closed spec fn contents(&self) -> Contents {
        self.fallback.contents()
    }

    pub fn new(db_name: String, store_name: String) -> (r: Self)
        ensures
            r.wf(),
            r.spec_db_name() == db_name@,
            r.spec_store_name() == store_name@,
            !r.spec_initialized(),
            r.contents() == Contents::empty(),
    {
        IndexedDbStorage { db_name, store_name, fallback: MemoryStorage::new(), initialized: false }
    }

    pub fn db_name(&self) -> (r: &str)
        ensures
            r@ == self.spec_db_name(),
    {
        self.db_name.as_str()
    }

    pub fn store_name(&self) -> (r: &str)
        ensures
            r@ == self.spec_store_name(),
    {
        self.store_name.as_str()
    }

    pub fn is_initialized(&self) -> (r: bool)
        ensures
            r == self.spec_initialized(),
    {
        self.initialized
    }

    /// Opens the database. Opening fails outside the browser; the storage
    /// then keeps serving from memory and does not try again.
    pub fn initialize(&mut self) -> (r: Result<(), StorageError>)
        requires
            old(self).wf(),
        ensures
            final(self).wf(),
            r is Ok,
            final(self).spec_initialized(),
            final(self).contents() == old(self).contents(),
            final(self).spec_db_name() == old(self).spec_db_name(),
            final(self).spec_store_name() == old(self).spec_store_name(),
    {
        if self.initialized {
            return Ok(());
        }
        self.initialized = true;
        Ok(())
    }

    /// Whether a real IndexedDB database is in use (never, outside the browser).
    pub fn is_indexeddb_available(&self) -> (r: bool)
        ensures
            !r,
    {
        false
    }

    /// Counts of the CRDT stores: all zero without a database.
    pub fn get_stats(&self) -> (r: Result<StorageStats, StorageError>)
        ensures
            r == Ok::<StorageStats, StorageError>(
                StorageStats { collections_count: 0, deltas_count: 0, peers_count: 0 },
            ),
    {
        Ok(StorageStats { collections_count: 0, deltas_count: 0, peers_count: 0 })
    }

    pub fn set(&mut self, key: &str, value: Vec<u8>) -> (r: Result<(), StorageError>)
        requires
            old(self).wf(),
        ensures
            final(self).wf(),
            r is Ok,
            final(self).contents() == contents_after_set(old(self).contents(), key@, value@),
            final(self).spec_initialized() == old(self).spec_initialized(),
    {
        self.fallback.set(key, value)
    }

    pub fn get(&self, key: &str) -> (r: Result<Option<Vec<u8>>, StorageError>)
        requires
            self.wf(),
        ensures
            r matches Ok(found) && match found {
                Some(v) => read(self.contents(), key@) == Some(v@),
                None => read(self.contents(), key@) is None,
            },
    {
        self.fallback.get(key)
    }

    pub fn remove(&mut self, key: &str) -> (r: Result<(), StorageError>)
        requires
            old(self).wf(),
        ensures
            final(self).wf(),
            r is Ok,
            final(self).contents() == contents_after_remove(old(self).contents(), key@),
            final(self).spec_initialized() == old(self).spec_initialized(),
    {
        self.fallback.remove(key)
    }

    pub fn keys(&self) -> (r: Result<Vec<String>, StorageError>)
        requires
            self.wf(),
        ensures
            r matches Ok(ks) && ks@.map_values(|k: String| k@).to_set() == self.contents().dom()
                && ks@.map_values(|k: String| k@).no_duplicates(),
    {
        self.fallback.keys()
    }

    pub fn contains_key(&self, key: &str) -> (r: Result<bool, StorageError>)
        requires
            self.wf(),
        ensures
            r matches Ok(b) && b == self.contents().contains_key(key@),
    {
        self.fallback.contains_key(key)
    }

    pub fn len(&self) -> (r: Result<usize, StorageError>)
        requires
            self.wf(),
        ensures
            r matches Ok(n) && n == self.contents().len(),
    {
        self.fallback.len()
    }

    pub fn is_empty(&self) -> (r: Result<bool, StorageError>)
        requires
            self.wf(),
        ensures
            r matches Ok(b) && b == (self.contents().len() == 0),
    {
        self.fallback.is_empty()
    }

    pub fn clear(&mut self) -> (r: Result<(), StorageError>)
        ensures
            final(self).wf(),
            r is Ok,
            final(self).contents() == Contents::empty(),
            final(self).spec_initialized() == old(self).spec_initialized(),
    {
        self.fallback.clear()
    }

    /// Stores the serialized bytes of a CRDT delta (in memory, under
    /// `delta:<collection>:<replica>:<operation>`), initializing first.
    pub fn store_delta(
        &mut self,
        collection_id: &str,
        delta: Vec<u8>,
        replica_id: &str,
        operation_type: &str,
    ) -> (r: Result<(), StorageError>)
        requires
            old(self).wf(),
        ensures
            final(self).wf(),
            r is Ok,
            final(self).spec_initialized(),
            final(self).contents() == contents_after_set(
                old(self).contents(),
                delta_key(collection_id@, replica_id@, operation_type@),
                delta@,
            ),
    {
        let _ = self.initialize();
        let key = String::from_str("delta:").concat(collection_id).concat(":").concat(
            replica_id,
        ).concat(":").concat(operation_type);
        assert(key@ =~= delta_key(collection_id@, replica_id@, operation_type@));
        self.fallback.set(key.as_str(), delta)
    }

    /// Deltas kept for a collection: none without a database.
    pub fn get_deltas(
        &mut self,
        collection_id: &str,
        from_timestamp: Option<u64>,
        to_timestamp: Option<u64>,
    ) -> (r: Result<Vec<crate::crdt_store::DeltaRecord>, StorageError>)
        requires
            old(self).wf(),
        ensures
            final(self).wf(),
            final(self).spec_initialized(),
            final(self).contents() == old(self).contents(),
            r matches Ok(v) && v@.len() == 0,
    {
        let _ = self.initialize();
        Ok(Vec::new())
    }

    /// Stores the serialized bytes of a collection's metadata (in memory,
    /// under `metadata:<id>`), initializing first.
    pub fn store_metadata(&mut self, collection_id: &str, metadata: Vec<u8>) -> (r: Result<
        (),
        StorageError,
    >)
        requires
            old(self).wf(),
        ensures
            final(self).wf(),
            r is Ok,
            final(self).spec_initialized(),
            final(self).contents() == contents_after_set(
                old(self).contents(),
                "metadata:"@ + collection_id@,
                metadata@,
            ),
    {
        let _ = self.initialize();
        let key = String::from_str("metadata:").concat(collection_id);
        self.fallback.set(key.as_str(), metadata)
    }

    /// The serialized metadata of a collection, if stored.
    pub fn get_metadata(&mut self, collection_id: &str) -> (r: Result<Option<Vec<u8>>, StorageError>)
        requires
            old(self).wf(),
        ensures
            final(self).wf(),
            final(self).spec_initialized(),
            final(self).contents() == old(self).contents(),
            r matches Ok(found) && match found {
                Some(v) => read(old(self).contents(), "metadata:"@ + collection_id@) == Some(v@),
                None => read(old(self).contents(), "metadata:"@ + collection_id@) is None,
            },
    {
        let _ = self.initialize();
        let key = String::from_str("metadata:").concat(collection_id);
        self.fallback.get(key.as_str())
    }

    /// Stores the serialized bytes of a peer's record (in memory, under
    /// `peer:<id>`), initializing first.
    pub fn store_peer(&mut self, peer_id: &str, peer: Vec<u8>) -> (r: Result<(), StorageError>)
        requires
            old(self).wf(),
        ensures
            final(self).wf(),
            r is Ok,
            final(self).spec_initialized(),
            final(self).contents() == contents_after_set(
                old(self).contents(),
                "peer:"@ + peer_id@,
                peer@,
            ),
    {
        let _ = self.initialize();
        let key = String::from_str("peer:").concat(peer_id);
        self.fallback.set(key.as_str(), peer)
    }

    /// The serialized record of a peer, if stored.
    pub fn get_peer(&mut self, peer_id: &str) -> (r: Result<Option<Vec<u8>>, StorageError>)
        requires
            old(self).wf(),
        ensures
            final(self).wf(),
            final(self).spec_initialized(),
            final(self).contents() == old(self).contents(),
            r matches Ok(found) && match found {
                Some(v) => read(old(self).contents(), "peer:"@ + peer_id@) == Some(v@),
                None => read(old(self).contents(), "peer:"@ + peer_id@) is None,
            },
    {
        let _ = self.initialize();
        let key = String::from_str("peer:").concat(peer_id);
        self.fallback.get(key.as_str())
    }

    /// Drops old deltas: nothing to drop without a database.
    pub fn cleanup_old_deltas(&mut self, collection_id: &str, keep_count: usize) -> (r: Result<
        (),
        StorageError,
    >)
        requires
            old(self).wf(),
        ensures
            final(self).wf(),
            r is Ok,
            final(self).spec_initialized(),
            final(self).contents() == old(self).contents(),
    {
        let _ = self.initialize();
        Ok(())
    }

    /// Clears everything.
    pub fn clear_all(&mut self) -> (r: Result<(), StorageError>)
        requires
            old(self).wf(),
        ensures
            final(self).wf(),
            r is Ok,
            final(self).spec_initialized(),
            final(self).contents() == Contents::empty(),
    {
        let _ = self.initialize();
        self.fallback.clear()
    }
}

/// The in-memory key of a delta.
pub open spec fn delta_key(collection: Seq<char>, replica: Seq<char>, operation: Seq<char>) -> Seq<
    char,
> {
    "delta:"@ + collection + ":"@ + replica + ":"@ + operation
}

/// Storage that can hold different backends.
#[derive(Debug)]
pub enum Storage {
    Memory(MemoryStorage),
    IndexedDb(IndexedDbStorage),
}

impl Storage {
    pub open spec fn wf(&self) -> bool {
        match self {
            Storage::Memory(m) => m.wf(),
            Storage::IndexedDb(d) => d.wf(),
        }
    }

    pub open spec fn contents(&self) -> Contents {
        match self {
            Storage::Memory(m) => m.contents(),
            Storage::IndexedDb(d) => d.contents(),
        }
    }

    pub fn memory() -> (r: Self)
        ensures
            r.wf(),
            r is Memory,
            r.contents() == Contents::empty(),
    {
        Storage::Memory(MemoryStorage::new())
    }

    /// IndexedDB storage of the named database (store "default").
    pub fn indexeddb(db_name: &str, version: u32) -> (r: Result<Self, StorageError>)
        ensures
            r matches Ok(Storage::IndexedDb(d)) && d.wf() && d.spec_db_name() == db_name@
                && d.spec_store_name() == "default"@ && d.contents() == Contents::empty(),
    {
        Ok(Storage::IndexedDb(IndexedDbStorage::new(String::from_str(db_name), String::from_str("default"))))
    }

    pub fn indexeddb_default() -> (r: Result<Self, StorageError>)
        ensures
            r matches Ok(Storage::IndexedDb(d)) && d.wf() && d.spec_db_name() == "default_db"@
                && d.spec_store_name() == "default"@ && d.contents() == Contents::empty(),
    {
        Ok(
            Storage::IndexedDb(
                IndexedDbStorage::new(String::from_str("default_db"), String::from_str("default")),
            ),
        )
    }

    pub fn set(&mut self, key: &str, value: Vec<u8>) -> (r: Result<(), StorageError>)
        requires
            old(self).wf(),
        ensures
            final(self).wf(),
            r is Ok,
            final(self).contents() == contents_after_set(old(self).contents(), key@, value@),
    {
        match self {
            Storage::Memory(m) => m.set(key, value),
            Storage::IndexedDb(d) => d.set(key, value),
        }
    }

    pub fn get(&self, key: &str) -> (r: Result<Option<Vec<u8>>, StorageError>)
        requires
            self.wf(),
        ensures
            r matches Ok(found) && match found {
                Some(v) => read(self.contents(), key@) == Some(v@),
                None => read(self.contents(), key@) is None,
            },
    {
        match self {
            Storage::Memory(m) => m.get(key),
            Storage::IndexedDb(d) => d.get(key),
        }
    }

    pub fn remove(&mut self, key: &str) -> (r: Result<(), StorageError>)
        requires
            old(self).wf(),
        ensures
            final(self).wf(),
            r is Ok,
            final(self).contents() == contents_after_remove(old(self).contents(), key@),
    {
        match self {
            Storage::Memory(m) => m.remove(key),
            Storage::IndexedDb(d) => d.remove(key),
        }
    }

    pub fn keys(&self) -> (r: Result<Vec<String>, StorageError>)
        requires
            self.wf(),
        ensures
            r matches Ok(ks) && ks@.map_values(|k: String| k@).to_set() == self.contents().dom()
                && ks@.map_values(|k: String| k@).no_duplicates(),
    {
        match self {
            Storage::Memory(m) => m.keys(),
            Storage::IndexedDb(d) => d.keys(),
        }
    }

    pub fn contains_key(&self, key: &str) -> (r: Result<bool, StorageError>)
        requires
            self.wf(),
        ensures
            r matches Ok(b) && b == self.contents().contains_key(key@),
    {
        match self {
            Storage::Memory(m) => m.contains_key(key),
            Storage::IndexedDb(d) => d.contains_key(key),
        }
    }

    pub fn len(&self) -> (r: Result<usize, StorageError>)
        requires
            self.wf(),
        ensures
            r matches Ok(n) && n == self.contents().len(),
    {
        match self {
            Storage::Memory(m) => m.len(),
            Storage::IndexedDb(d) => d.len(),
        }
    }

    pub fn is_empty(&self) -> (r: Result<bool, StorageError>)
        requires
            self.wf(),
        ensures
            r matches Ok(b) && b == (self.contents().len() == 0),
    {
        match self {
            Storage::Memory(m) => m.is_empty(),
            Storage::IndexedDb(d) => d.is_empty(),
        }
    }

    pub fn clear(&mut self) -> (r: Result<(), StorageError>)
        ensures
            final(self).wf(),
            r is Ok,
            final(self).contents() == Contents::empty(),
    {
        match self {
            Storage::Memory(m) => m.clear(),
            Storage::IndexedDb(d) => d.clear(),
        }
    }
}

} // verus!
