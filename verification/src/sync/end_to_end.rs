//! End-to-end synchronization of whole collections: each replica sends the
//! data of every collection to the peers it knows to be connected, and
//! answers a peer's data with the data it keeps.
//!
//! The manager decides; encoding messages, the timers and the sending are
//! left to the caller, which hands each received message to
//! [`EndToEndSyncManager::handle_message`].

use crate::ids::ReplicaId;
use crate::keyed::KeyedMap;
use crate::storage::{read, Contents, Storage, StorageError};
use crate::sync::engine::{PeerInfo, PeerSyncStatus, SyncEngineError, SyncState};
use crate::text::{str_eq, texts};
use crate::transport::{SyncTransport, TransportError};
use vstd::prelude::*;
use vstd::string::*;

verus! {

#[derive(Debug)]
pub enum EndToEndSyncError {
    Storage(StorageError),
    Transport(TransportError),
    SyncEngine(SyncEngineError),
    Serialization(serde_json::Error),
    SyncFailed(String),
    PeerNotFound(String),
    CollectionNotFound(String),
}

/// End-to-end synchronization messages (timestamps in milliseconds since the
/// Unix epoch).
#[derive(Debug)]
pub enum SyncMessage {
    SyncRequest { collection_id: String, replica_id: ReplicaId, data: Vec<u8>, timestamp: u64 },
    SyncResponse { collection_id: String, replica_id: ReplicaId, data: Vec<u8>, timestamp: u64 },
    Presence { replica_id: ReplicaId, status: String, timestamp: u64 },
    Heartbeat { replica_id: ReplicaId, timestamp: u64 },
    Ack { message_id: String, replica_id: ReplicaId, timestamp: u64 },
}

/// A collection that is kept in sync.
#[derive(Debug, PartialEq, Eq)]
pub struct CollectionMetadata {
    pub id: String,
    pub name: String,
    pub crdt_type: String,
    pub version: u32,
    pub last_sync: u64,
    pub replica_count: u32,
}

impl Clone for CollectionMetadata {
    fn clone(&self) -> (r: Self)
        ensures
            r == *self,
    {
        CollectionMetadata {
            id: self.id.clone(),
            name: self.name.clone(),
            crdt_type: self.crdt_type.clone(),
            version: self.version,
            last_sync: self.last_sync,
            replica_count: self.replica_count,
        }
    }
}

/// The collection and data of a sync request (empty for other messages).
pub open spec fn request_view(m: SyncMessage) -> (Seq<char>, Seq<u8>) {
    match m {
        SyncMessage::SyncRequest { collection_id, data, .. } => (collection_id@, data@),
        _ => (Seq::empty(), Seq::empty()),
    }
}

/// The requests a sync round sends: for each collection in order that has
/// data, one request with that data per connected peer.
pub open spec fn sync_requests(cols: Seq<Seq<char>>, stored: Contents, connected: nat) -> Seq<
    (Seq<char>, Seq<u8>),
>
    decreases cols.len(),
{
    if cols.len() == 0 {
        Seq::empty()
    } else {
        let head = if stored.contains_key(cols[0]) {
            Seq::new(connected, |i: int| (cols[0], stored[cols[0]]))
        } else {
            Seq::empty()
        };
        head + sync_requests(cols.drop_first(), stored, connected)
    }
}

/// The data kept after a peer's request: the peer's data where nothing was
/// kept or where its timestamp is within the last second of `now`; otherwise
/// the data kept.
pub open spec fn data_after_request(
    local: Option<Seq<u8>>,
    remote: Seq<u8>,
    timestamp: u64,
    now: u64,
) -> Seq<u8> {
    match local {
        Some(l) => if timestamp > now - 1000 {
            remote
        } else {
            l
        },
        None => remote,
    }
}

/// The peer record made from a presence announcement received at `now`.
pub open spec fn announced_peer(replica_id: ReplicaId, status: Seq<char>, now: i64) -> PeerInfo {
    PeerInfo {
        replica_id,
        last_seen: now,
        is_online: status == "connected"@,
        last_sync: None,
        sync_status: if status == "connected"@ {
            PeerSyncStatus::Connected
        } else {
            PeerSyncStatus::Disconnected
        },
    }
}

/// After a replica answers a peer's request for a collection and the peer
/// takes in the answer, both hold the same data for it: the data the
/// answering replica kept.
pub proof fn law_request_response_converge(
    answering: Contents,
    asking: Contents,
    collection: Seq<char>,
    data: Seq<u8>,
    timestamp: u64,
    now: u64,
)
    ensures
        ({
            let kept = data_after_request(read(answering, collection), data, timestamp, now);
            let a = answering.insert(collection, kept);
            let b = asking.insert(collection, kept);
            &&& read(a, collection) == read(b, collection)
            &&& read(a, collection) == Some(kept)
        }),
{
}

/// The end-to-end synchronization manager of one replica.
pub struct EndToEndSyncManager<T: SyncTransport> {
    replica_id: ReplicaId,
    storage: Storage,
    transport: T,
    collections: KeyedMap<String, CollectionMetadata>,
    peers: KeyedMap<ReplicaId, PeerInfo>,
    sync_state: SyncState,
    sync_interval_ms: u64,
    heartbeat_interval_ms: u64,
    is_running: bool,
}

impl<T: SyncTransport> EndToEndSyncManager<T> {
    /// The transport the manager sends through.
    pub closed spec fn spec_transport(&self) -> T {
        self.transport
    }

    pub closed spec fn wf(&self) -> bool {
        &&& self.storage.wf()
        &&& self.collections.wf()
        &&& self.peers.wf()
    }

    pub closed spec fn spec_replica_id(&self) -> ReplicaId {
        self.replica_id
    }

    pub closed spec fn stored(&self) -> Contents {
        self.storage.contents()
    }

    pub closed spec fn collection_map(&self) -> Map<Seq<char>, CollectionMetadata> {
        self.collections.map()
    }

    /// The collection ids, in the order they were added.
    pub closed spec fn collection_order(&self) -> Seq<Seq<char>> {
        self.collections.key_seq()
    }

    pub closed spec fn peer_map(&self) -> Map<u128, PeerInfo> {
        self.peers.map()
    }

    /// The peers, in the order they were first heard of.
    pub closed spec fn peer_order(&self) -> Seq<u128> {
        self.peers.key_seq()
    }

    pub closed spec fn spec_state(&self) -> SyncState {
        self.sync_state
    }

    pub closed spec fn running(&self) -> bool {
        self.is_running
    }

    pub closed spec fn intervals(&self) -> (u64, u64) {
        (self.sync_interval_ms, self.heartbeat_interval_ms)
    }

    /// How many known peers are connected.
    pub open spec fn connected_count(&self) -> nat {
        self.peer_order().filter(|k: u128| self.peer_map()[k].sync_status == PeerSyncStatus::Connected).len()
    }

    pub fn new(
        replica_id: ReplicaId,
        storage: Storage,
        transport: T,
        sync_interval_ms: u64,
        heartbeat_interval_ms: u64,
    ) -> (r: Self)
        requires
            storage.wf(),
        ensures
            r.wf(),
            r.spec_replica_id() == replica_id,
            r.stored() == storage.contents(),
            r.collection_map() == Map::<Seq<char>, CollectionMetadata>::empty(),
            r.peer_map() == Map::<u128, PeerInfo>::empty(),
            r.spec_state() == SyncState::Disconnected,
            !r.running(),
            r.intervals() == (sync_interval_ms, heartbeat_interval_ms),
    {
        EndToEndSyncManager {
            replica_id,
            storage,
            transport,
            collections: KeyedMap::new(),
            peers: KeyedMap::new(),
            sync_state: SyncState::Disconnected,
            sync_interval_ms,
            heartbeat_interval_ms,
            is_running: false,
        }
    }

    /// Starts the manager: a running manager is left as it is; otherwise it
    /// runs and is connected.
    pub fn start(&mut self) -> (r: Result<(), EndToEndSyncError>)
        ensures
            r is Ok,
            final(self).running(),
            old(self).running() ==> final(self).spec_state() == old(self).spec_state(),
            !old(self).running() ==> final(self).spec_state() == SyncState::Connected,
            final(self).stored() == old(self).stored(),
            final(self).collection_map() == old(self).collection_map(),
            final(self).peer_map() == old(self).peer_map(),
            final(self).wf() == old(self).wf(),
    {
        if self.is_running {
            return Ok(());
        }
        self.is_running = true;
        self.sync_state = SyncState::Connected;
        Ok(())
    }

    /// Stops the manager: it no longer runs and is disconnected.
    pub fn stop(&mut self) -> (r: Result<(), EndToEndSyncError>)
        ensures
            r is Ok,
            !final(self).running(),
            final(self).spec_state() == SyncState::Disconnected,
            final(self).stored() == old(self).stored(),
            final(self).collection_map() == old(self).collection_map(),
            final(self).peer_map() == old(self).peer_map(),
            final(self).wf() == old(self).wf(),
    {
        self.is_running = false;
        self.sync_state = SyncState::Disconnected;
        Ok(())
    }

    /// The requests of one sync round (see [`sync_requests`]), all from this
    /// replica and stamped `now`.
    pub fn perform_sync(&self, now: u64) -> (r: Vec<SyncMessage>)
        requires
            self.wf(),
        ensures
            r@.map_values(|m: SyncMessage| request_view(m)) == sync_requests(
                self.collection_order(),
                self.stored(),
                self.connected_count(),
            ),
            forall|i: int| 0 <= i < r@.len() ==> (#[trigger] r@[i] matches SyncMessage::SyncRequest {
                replica_id,
                timestamp,
                ..
            } && replica_id == self.spec_replica_id() && timestamp == now),
    {
        let ghost cols = self.collection_order();
        let ghost pord = self.peer_order();
        let ghost pred = |k: u128| self.peer_map()[k].sync_status == PeerSyncStatus::Connected;
        let ghost n: nat = self.connected_count();
        let nc = self.collections.entry_count();
        let np = self.peers.entry_count();
        proof {
            self.collections.lemma_key_seq_contains(arbitrary());
            self.peers.lemma_key_seq_contains(arbitrary());
        }
        let mut out: Vec<SyncMessage> = Vec::new();
        let mut i: usize = 0;
        assert(cols.skip(0) =~= cols);
        assert(out@.map_values(|m: SyncMessage| request_view(m)) =~= Seq::<(Seq<char>, Seq<u8>)>::empty());
        while i < nc
            invariant
                self.wf(),
                nc == cols.len(),
                nc == self.collections.entries().len(),
                np == self.peers.entries().len(),
                np == pord.len(),
                cols == self.collection_order(),
                pord == self.peer_order(),
                n == pord.filter(pred).len(),
                pred == (|k: u128| self.peer_map()[k].sync_status == PeerSyncStatus::Connected),
                forall|j: int| 0 <= j < nc ==> #[trigger] cols[j] == self.collections.entries()[j].0@,
                forall|j: int| 0 <= j < np ==> #[trigger] pord[j] == self.peers.entries()[j].0@,
                i <= nc,
                out@.map_values(|m: SyncMessage| request_view(m)) + sync_requests(
                    cols.skip(i as int),
                    self.stored(),
                    n,
                ) == sync_requests(cols, self.stored(), n),
                forall|k: int| 0 <= k < out@.len() ==> (#[trigger] out@[k] matches SyncMessage::SyncRequest {
                    replica_id,
                    timestamp,
                    ..
                } && replica_id == self.spec_replica_id() && timestamp == now),
            decreases nc - i,
        {
            let (cid, _meta) = self.collections.entry_at(i);
            let found = self.storage.get(cid.as_str());
            let ghost c = cols[i as int];
            let ghost base = out@;
            assert(cols.skip(i as int).drop_first() =~= cols.skip(i + 1));
            assert(cols.skip(i as int)[0] == c);
            match found {
                Ok(Some(data)) => {
                    let ghost d = data@;
                    let mut j: usize = 0;
                    while j < np
                        invariant
                            self.wf(),
                            np == pord.len(),
                            np == self.peers.entries().len(),
                            pord == self.peer_order(),
                            pred == (|k: u128| self.peer_map()[k].sync_status == PeerSyncStatus::Connected),
                            forall|jj: int| 0 <= jj < np ==> #[trigger] pord[jj] == self.peers.entries()[jj].0@,
                            j <= np,
                            cid@ == c,
                            data@ == d,
                            out@.len() == base.len() + pord.take(j as int).filter(pred).len(),
                            out@.take(base.len() as int) == base,
                            forall|k: int| base.len() <= k < out@.len() ==> request_view(#[trigger] out@[k]) == (c, d),
                            forall|k: int| 0 <= k < out@.len() ==> (#[trigger] out@[k] matches SyncMessage::SyncRequest {
                                replica_id,
                                timestamp,
                                ..
                            } && replica_id == self.spec_replica_id() && timestamp == now),
                        decreases np - j,
                    {
                        let (pk, p) = self.peers.entry_at(j);
                        proof {
                            assert(pord.take(j + 1) =~= pord.take(j as int).push(pord[j as int]));
                            pord.take(j as int).lemma_filter_push(pord[j as int], pred);
                        }
                        if matches!(p.sync_status, PeerSyncStatus::Connected) {
                            let ghost before = out@;
                            out.push(
                                SyncMessage::SyncRequest {
                                    collection_id: cid.clone(),
                                    replica_id: self.replica_id,
                                    data: data.clone(),
                                    timestamp: now,
                                },
                            );
                            assert(out@.take(base.len() as int) =~= before.take(base.len() as int));
                        }
                        j = j + 1;
                    }
                    proof {
                        assert(pord.take(np as int) =~= pord);
                        let head = Seq::new(n, |k: int| (c, d));
                        assert(read(self.stored(), c) == Some(d));
                        assert(out@.map_values(|m: SyncMessage| request_view(m)) =~= base.map_values(
                            |m: SyncMessage| request_view(m),
                        ) + head) by {
                            assert forall|k: int| 0 <= k < base.len() implies out@[k] == base[k] by {
                                assert(out@.take(base.len() as int)[k] == base[k]);
                            }
                        }
                    }
                },
                _ => {
                    proof {
                        assert(!self.stored().contains_key(c));
                    }
                },
            }
            i = i + 1;
        }
        assert(cols.skip(nc as int) =~= Seq::<Seq<char>>::empty());
        assert(out@.map_values(|m: SyncMessage| request_view(m)) + Seq::empty() =~= out@.map_values(
            |m: SyncMessage| request_view(m),
        ));
        out
    }

    /// The heartbeat of this replica.
    pub fn heartbeat_message(&self, now: u64) -> (r: SyncMessage)
        ensures
            r == (SyncMessage::Heartbeat { replica_id: self.spec_replica_id(), timestamp: now }),
    {
        SyncMessage::Heartbeat { replica_id: self.replica_id, timestamp: now }
    }

    /// Handles one message received at `now`, and hands back the answer to
    /// send, if any: a request is answered with the data kept after it.
    pub fn handle_message(&mut self, message: SyncMessage, now: u64) -> (r: Result<
        Option<SyncMessage>,
        EndToEndSyncError,
    >)
        requires
            old(self).wf(),
            1000 <= now <= i64::MAX,
        ensures
            final(self).wf(),
            final(self).collection_map() == old(self).collection_map(),
            final(self).spec_state() == old(self).spec_state(),
            final(self).running() == old(self).running(),
            final(self).spec_replica_id() == old(self).spec_replica_id(),
            match message {
                SyncMessage::SyncRequest { collection_id, data, timestamp, .. } => {
                    let kept = data_after_request(
                        read(old(self).stored(), collection_id@),
                        data@,
                        timestamp,
                        now,
                    );
                    &&& final(self).stored() == old(self).stored().insert(collection_id@, kept)
                    &&& final(self).peer_map() == old(self).peer_map()
                    &&& r matches Ok(Some(SyncMessage::SyncResponse { collection_id: c, replica_id, data: d, timestamp: t }))
                    &&& c@ == collection_id@ && replica_id == old(self).spec_replica_id() && d@ == kept && t == now
                },
                SyncMessage::SyncResponse { collection_id, replica_id, data, .. } => {
                    &&& final(self).stored() == old(self).stored().insert(collection_id@, data@)
                    &&& final(self).peer_map() == if old(self).peer_map().contains_key(replica_id@) {
                        old(self).peer_map().insert(replica_id@, PeerInfo {
                            last_sync: Some(now as i64),
                            ..old(self).peer_map()[replica_id@]
                        })
                    } else {
                        old(self).peer_map()
                    }
                    &&& r == Ok::<Option<SyncMessage>, EndToEndSyncError>(None)
                },
                SyncMessage::Presence { replica_id, status, .. } => {
                    &&& final(self).stored() == old(self).stored()
                    &&& final(self).peer_map() == old(self).peer_map().insert(
                        replica_id@,
                        announced_peer(replica_id, status@, now as i64),
                    )
                    &&& r == Ok::<Option<SyncMessage>, EndToEndSyncError>(None)
                },
                SyncMessage::Heartbeat { replica_id, .. } => {
                    &&& final(self).stored() == old(self).stored()
                    &&& final(self).peer_map() == if old(self).peer_map().contains_key(replica_id@) {
                        old(self).peer_map().insert(replica_id@, PeerInfo {
                            last_seen: now as i64,
                            ..old(self).peer_map()[replica_id@]
                        })
                    } else {
                        old(self).peer_map()
                    }
                    &&& r == Ok::<Option<SyncMessage>, EndToEndSyncError>(None)
                },
                SyncMessage::Ack { .. } => {
                    &&& final(self).stored() == old(self).stored()
                    &&& final(self).peer_map() == old(self).peer_map()
                    &&& r == Ok::<Option<SyncMessage>, EndToEndSyncError>(None)
                },
            },
    {
        let now_ms: i64 = now as i64;
        match message {
            SyncMessage::SyncRequest { collection_id, replica_id: _, data, timestamp } => {
                let local = self.storage.get(collection_id.as_str());
                let merged = match local {
                    Ok(Some(l)) => if timestamp > now - 1000 {
                        data
                    } else {
                        l
                    },
                    _ => data,
                };
                let _ = self.storage.set(collection_id.as_str(), merged.clone());
                Ok(
                    Some(
                        SyncMessage::SyncResponse {
                            collection_id,
                            replica_id: self.replica_id,
                            data: merged,
                            timestamp: now,
                        },
                    ),
                )
            },
            SyncMessage::SyncResponse { collection_id, replica_id, data, timestamp: _ } => {
                let _ = self.storage.set(collection_id.as_str(), data);
                match self.peers.find(&replica_id) {
                    Some(i) => {
                        let (_k, p) = self.peers.entry_at(i);
                        let mut updated = p.clone();
                        updated.last_sync = Some(now_ms);
                        let _ = self.peers.replace_value_at(i, updated);
                    },
                    None => {},
                }
                Ok(None)
            },
            SyncMessage::Presence { replica_id, status, timestamp: _ } => {
                let connected = str_eq(status.as_str(), "connected");
                proof {
                    reveal_strlit("connected");
                }
                let _ = self.peers.insert(
                    replica_id,
                    PeerInfo {
                        replica_id,
                        last_seen: now_ms,
                        is_online: connected,
                        last_sync: None,
                        sync_status: if connected {
                            PeerSyncStatus::Connected
                        } else {
                            PeerSyncStatus::Disconnected
                        },
                    },
                );
                Ok(None)
            },
            SyncMessage::Heartbeat { replica_id, timestamp: _ } => {
                match self.peers.find(&replica_id) {
                    Some(i) => {
                        let (_k, p) = self.peers.entry_at(i);
                        let mut updated = p.clone();
                        updated.last_seen = now_ms;
                        let _ = self.peers.replace_value_at(i, updated);
                    },
                    None => {},
                }
                Ok(None)
            },
            SyncMessage::Ack { .. } => Ok(None),
        }
    }

    /// Sends an encoded message; a transport failure is reported as it came.
    pub fn send_frame(&mut self, frame: &[u8]) -> (r: Result<(), EndToEndSyncError>)
        ensures
            exists|r0: Result<(), TransportError>| #[trigger]
                old(self).spec_transport().send_outcome(frame@, final(self).spec_transport(), r0)
                && match r0 {
                    Ok(()) => r is Ok,
                    Err(e) => r == Err::<(), EndToEndSyncError>(EndToEndSyncError::Transport(e)),
                },
            final(self).stored() == old(self).stored(),
            final(self).collection_map() == old(self).collection_map(),
            final(self).peer_map() == old(self).peer_map(),
            final(self).spec_state() == old(self).spec_state(),
            final(self).running() == old(self).running(),
            final(self).wf() == old(self).wf(),
    {
        let sent = self.transport.send(frame);
        let ghost r0 = sent;
        let r = match sent {
            Ok(()) => Ok(()),
            Err(e) => Err(EndToEndSyncError::Transport(e)),
        };
        assert(old(self).spec_transport().send_outcome(frame@, self.spec_transport(), r0));
        r
    }

    /// Adds (or replaces) a collection, by its id.
    pub fn add_collection(&mut self, metadata: CollectionMetadata) -> (r: Result<(), EndToEndSyncError>)
        requires
            old(self).wf(),
        ensures
            final(self).wf(),
            r is Ok,
            final(self).collection_map() == old(self).collection_map().insert(metadata.id@, metadata),
            final(self).stored() == old(self).stored(),
            final(self).peer_map() == old(self).peer_map(),
            final(self).spec_state() == old(self).spec_state(),
            final(self).running() == old(self).running(),
    {
        let id = metadata.id.clone();
        let _ = self.collections.insert(id, metadata);
        Ok(())
    }

    pub fn remove_collection(&mut self, collection_id: &str) -> (r: Result<(), EndToEndSyncError>)
        requires
            old(self).wf(),
        ensures
            final(self).wf(),
            r is Ok,
            final(self).collection_map() == old(self).collection_map().remove(collection_id@),
            final(self).stored() == old(self).stored(),
            final(self).peer_map() == old(self).peer_map(),
            final(self).spec_state() == old(self).spec_state(),
            final(self).running() == old(self).running(),
    {
        let _ = self.collections.remove(&String::from_str(collection_id));
        Ok(())
    }

    pub fn get_collection(&self, collection_id: &str) -> (r: Result<
        Option<CollectionMetadata>,
        EndToEndSyncError,
    >)
        requires
            self.wf(),
        ensures
            r matches Ok(found) && match found {
                Some(m) => self.collection_map().contains_key(collection_id@) && m
                    == self.collection_map()[collection_id@],
                None => !self.collection_map().contains_key(collection_id@),
            },
    {
        match self.collections.get(&String::from_str(collection_id)) {
            Some(m) => Ok(Some(m.clone())),
            None => Ok(None),
        }
    }

    /// The collections, in the order they were added.
    pub fn list_collections(&self) -> (r: Result<Vec<CollectionMetadata>, EndToEndSyncError>)
        requires
            self.wf(),
        ensures
            r matches Ok(v) && v@.len() == self.collection_order().len() && forall|i: int|
                0 <= i < v@.len() ==> #[trigger] v@[i] == self.collection_map()[self.collection_order()[i]],
    {
        let n = self.collections.entry_count();
        let mut out: Vec<CollectionMetadata> = Vec::new();
        let mut i: usize = 0;
        proof {
            self.collections.lemma_key_seq_contains(arbitrary());
        }
        while i < n
            invariant
                self.wf(),
                n == self.collections.entries().len(),
                n == self.collection_order().len(),
                forall|j: int| 0 <= j < n ==> #[trigger] self.collection_order()[j]
                    == self.collections.entries()[j].0@,
                i <= n,
                out@.len() == i,
                forall|j: int| 0 <= j < i ==> #[trigger] out@[j] == self.collection_map()[self.collection_order()[j]],
            decreases n - i,
        {
            let (_k, m) = self.collections.entry_at(i);
            out.push(m.clone());
            i = i + 1;
        }
        Ok(out)
    }

    pub fn get_peer(&self, peer_id: &ReplicaId) -> (r: Result<Option<PeerInfo>, EndToEndSyncError>)
        requires
            self.wf(),
        ensures
            r matches Ok(found) && match found {
                Some(p) => self.peer_map().contains_key(peer_id@) && p == self.peer_map()[peer_id@],
                None => !self.peer_map().contains_key(peer_id@),
            },
    {
        match self.peers.get(peer_id) {
            Some(p) => Ok(Some(p.clone())),
            None => Ok(None),
        }
    }

    /// The peers, in the order they were first heard of.
    pub fn list_peers(&self) -> (r: Result<Vec<PeerInfo>, EndToEndSyncError>)
        requires
            self.wf(),
        ensures
            r matches Ok(v) && v@.len() == self.peer_order().len() && forall|i: int|
                0 <= i < v@.len() ==> #[trigger] v@[i] == self.peer_map()[self.peer_order()[i]],
    {
        let n = self.peers.entry_count();
        let mut out: Vec<PeerInfo> = Vec::new();
        let mut i: usize = 0;
        proof {
            self.peers.lemma_key_seq_contains(arbitrary());
        }
        while i < n
            invariant
                self.wf(),
                n == self.peers.entries().len(),
                n == self.peer_order().len(),
                forall|j: int| 0 <= j < n ==> #[trigger] self.peer_order()[j] == self.peers.entries()[j].0@,
                i <= n,
                out@.len() == i,
                forall|j: int| 0 <= j < i ==> #[trigger] out@[j] == self.peer_map()[self.peer_order()[j]],
            decreases n - i,
        {
            let (_k, p) = self.peers.entry_at(i);
            out.push(p.clone());
            i = i + 1;
        }
        Ok(out)
    }

    /// The time between sync rounds, in milliseconds.
    pub fn sync_interval_ms(&self) -> (r: u64)
        ensures
            r == self.intervals().0,
    {
        self.sync_interval_ms
    }

    /// The time between heartbeats, in milliseconds.
    pub fn heartbeat_interval_ms(&self) -> (r: u64)
        ensures
            r == self.intervals().1,
    {
        self.heartbeat_interval_ms
    }

    pub fn get_sync_state(&self) -> (r: SyncState)
        ensures
            r == self.spec_state(),
    {
        self.sync_state.clone()
    }

    pub fn is_running(&self) -> (r: bool)
        ensures
            r == self.running(),
    {
        self.is_running
    }
}

} // verus!
