//! The synchronization engine: its state, the peers it has heard of, the
//! messages it queues, and how it answers each message from a peer.
//!
//! Encoding a message for the wire is left to the caller: the engine says
//! which message goes out, the caller encodes it and hands the frame back to
//! [`SyncEngine::send_frame`].

use crate::conflict::DefaultConflictResolver;
use crate::ids::ReplicaId;
use crate::keyed::KeyedMap;
use crate::storage::{Storage, StorageError};
use crate::transport::{SyncTransport, TransportError};
use vstd::prelude::*;
use vstd::string::*;

verus! {

#[derive(Debug)]
pub enum SyncEngineError {
    Storage(StorageError),
    Transport(TransportError),
    Serialization(serde_json::Error),
    CrdtError(String),
    SyncFailed(String),
    ConflictResolution(String),
}

/// Synchronization state. `Connected` and `Disconnected` are the states of
/// the end-to-end manager.
#[derive(Debug, PartialEq, Eq)]
pub enum SyncState {
    NotSynced,
    Syncing,
    Synced,
    Failed(String),
    ResolvingConflicts,
    Offline,
    Connected,
    Disconnected,
}

impl Clone for SyncState {
    fn clone(&self) -> (r: Self)
        ensures
            r == *self,
    {
        match self {
            SyncState::NotSynced => SyncState::NotSynced,
            SyncState::Syncing => SyncState::Syncing,
            SyncState::Synced => SyncState::Synced,
            SyncState::Failed(m) => SyncState::Failed(m.clone()),
            SyncState::ResolvingConflicts => SyncState::ResolvingConflicts,
            SyncState::Offline => SyncState::Offline,
            SyncState::Connected => SyncState::Connected,
            SyncState::Disconnected => SyncState::Disconnected,
        }
    }
}

/// Synchronization messages between engines. Timestamps are milliseconds
/// since the Unix epoch.
#[derive(Debug)]
pub enum SyncMessage<T> {
    Sync { key: String, data: T, replica_id: ReplicaId, timestamp: i64 },
    Ack { key: String, replica_id: ReplicaId },
    Presence { replica_id: ReplicaId, timestamp: i64 },
    Conflict { key: String, data: T, replica_id: ReplicaId, timestamp: i64 },
    Heartbeat { replica_id: ReplicaId, timestamp: i64 },
}

/// Peer synchronization status (timestamps in milliseconds since the epoch).
/// `Connected` and `Disconnected` are what the end-to-end manager records of
/// a peer's announced presence.
#[derive(Debug, PartialEq, Eq)]
pub enum PeerSyncStatus {
    Never,
    Success { timestamp: i64 },
    Failed { timestamp: i64, error: String },
    Syncing { started: i64 },
    Connected,
    Disconnected,
}

impl Clone for PeerSyncStatus {
    fn clone(&self) -> (r: Self)
        ensures
            r == *self,
    {
        match self {
            PeerSyncStatus::Never => PeerSyncStatus::Never,
            PeerSyncStatus::Success { timestamp } => PeerSyncStatus::Success {
                timestamp: *timestamp,
            },
            PeerSyncStatus::Failed { timestamp, error } => PeerSyncStatus::Failed {
                timestamp: *timestamp,
                error: error.clone(),
            },
            PeerSyncStatus::Syncing { started } => PeerSyncStatus::Syncing { started: *started },
            PeerSyncStatus::Connected => PeerSyncStatus::Connected,
            PeerSyncStatus::Disconnected => PeerSyncStatus::Disconnected,
        }
    }
}

/// What the engine knows of a peer (times in milliseconds since the epoch).
#[derive(Debug)]
pub struct PeerInfo {
    pub replica_id: ReplicaId,
    pub last_seen: i64,
    pub is_online: bool,
    pub last_sync: Option<i64>,
    pub sync_status: PeerSyncStatus,
}

impl Clone for PeerInfo {
    fn clone(&self) -> (r: Self)
        ensures
            r == *self,
    {
        PeerInfo {
            replica_id: self.replica_id,
            last_seen: self.last_seen,
            is_online: self.is_online,
            last_sync: self.last_sync,
            sync_status: self.sync_status.clone(),
        }
    }
}

/// A peer first heard of at `timestamp`.
pub open spec fn fresh_peer(replica_id: ReplicaId, timestamp: i64) -> PeerInfo {
    PeerInfo {
        replica_id,
        last_seen: timestamp,
        is_online: true,
        last_sync: None,
        sync_status: PeerSyncStatus::Never,
    }
}

/// `p` last seen at `t`, all else kept.
pub open spec fn seen_at(p: PeerInfo, t: i64) -> PeerInfo {
    PeerInfo {
        replica_id: p.replica_id,
        last_seen: t,
        is_online: p.is_online,
        last_sync: p.last_sync,
        sync_status: p.sync_status,
    }
}

/// The peer table after one message: a presence (re)registers its sender, a
/// heartbeat refreshes a known sender, the others leave it unchanged.
pub open spec fn peers_after<T>(peers: Map<u128, PeerInfo>, m: SyncMessage<T>) -> Map<
    u128,
    PeerInfo,
> {
    match m {
        SyncMessage::Presence { replica_id, timestamp } => peers.insert(
            replica_id@,
            fresh_peer(replica_id, timestamp),
        ),
        SyncMessage::Heartbeat { replica_id, timestamp } => if peers.contains_key(replica_id@) {
            peers.insert(replica_id@, seen_at(peers[replica_id@], timestamp))
        } else {
            peers
        },
        _ => peers,
    }
}

/// The answer to one message: a sync is acknowledged to its sender.
pub open spec fn reply_to<T>(m: SyncMessage<T>) -> Option<SyncMessage<()>> {
    match m {
        SyncMessage::Sync { key, replica_id, .. } => Some(SyncMessage::Ack { key, replica_id }),
        _ => None,
    }
}

/// The peer table after a run of messages, taken in order.
pub open spec fn peers_after_all<T>(peers: Map<u128, PeerInfo>, ms: Seq<SyncMessage<T>>) -> Map<
    u128,
    PeerInfo,
>
    decreases ms.len(),
{
    if ms.len() == 0 {
        peers
    } else {
        peers_after_all(peers_after(peers, ms[0]), ms.drop_first())
    }
}

/// The answers to a run of messages, in order.
pub open spec fn replies_to_all<T>(ms: Seq<SyncMessage<T>>) -> Seq<SyncMessage<()>>
    decreases ms.len(),
{
    if ms.len() == 0 {
        Seq::empty()
    } else {
        match reply_to(ms[0]) {
            Some(r) => seq![r] + replies_to_all(ms.drop_first()),
            None => replies_to_all(ms.drop_first()),
        }
    }
}

/// A peer announced by presence is then kept up to date by its heartbeats:
/// it is known, online, and last seen at the latest heartbeat.
pub proof fn law_heartbeat_refreshes_announced_peer<T>(
    peers: Map<u128, PeerInfo>,
    id: ReplicaId,
    t1: i64,
    t2: i64,
)
    ensures
        ({
            let p = peers_after(
                peers_after(peers, SyncMessage::<T>::Presence { replica_id: id, timestamp: t1 }),
                SyncMessage::<T>::Heartbeat { replica_id: id, timestamp: t2 },
            );
            &&& p.contains_key(id@)
            &&& p[id@].last_seen == t2
            &&& p[id@].is_online
            &&& p[id@].sync_status == PeerSyncStatus::Never
        }),
{
}

/// A heartbeat from a peer that never announced itself changes nothing.
pub proof fn law_unknown_heartbeat_ignored<T>(peers: Map<u128, PeerInfo>, id: ReplicaId, t: i64)
    requires
        !peers.contains_key(id@),
    ensures
        peers_after(peers, SyncMessage::<T>::Heartbeat { replica_id: id, timestamp: t }) == peers,
{
}

/// Handling messages in two batches is handling them in one: the peer table
/// ends the same and the answers are those of the first batch, then those of
/// the second.
pub proof fn law_batches_compose<T>(
    peers: Map<u128, PeerInfo>,
    first: Seq<SyncMessage<T>>,
    second: Seq<SyncMessage<T>>,
)
    ensures
        peers_after_all(peers, first + second) == peers_after_all(
            peers_after_all(peers, first),
            second,
        ),
        replies_to_all(first + second) == replies_to_all(first) + replies_to_all(second),
    decreases first.len(),
{
    if first.len() == 0 {
        assert(first + second =~= second);
    } else {
        assert((first + second).drop_first() =~= first.drop_first() + second);
        assert((first + second)[0] == first[0]);
        law_batches_compose(peers_after(peers, first[0]), first.drop_first(), second);
        match reply_to(first[0]) {
            Some(r) => {
                assert(seq![r] + replies_to_all(first.drop_first()) + replies_to_all(second) =~= seq![r]
                    + (replies_to_all(first.drop_first()) + replies_to_all(second)));
            },
            None => {},
        }
    }
}

/// The synchronization engine of one replica.
pub struct SyncEngine<Tr: SyncTransport> {
    replica_id: ReplicaId,
    state: SyncState,
    peers: KeyedMap<ReplicaId, PeerInfo>,
    storage: Storage,
    transport: Tr,
    sync_queue: Vec<SyncMessage<Vec<u8>>>,
    conflict_resolver: Option<DefaultConflictResolver>,
}

impl<Tr: SyncTransport> SyncEngine<Tr> {
    pub closed spec fn wf(&self) -> bool {
        self.peers.wf()
    }

    pub closed spec fn spec_replica_id(&self) -> ReplicaId {
        self.replica_id
    }

    pub closed spec fn spec_state(&self) -> SyncState {
        self.state
    }

    /// The peers, by replica id.
    pub closed spec fn peer_map(&self) -> Map<u128, PeerInfo> {
        self.peers.map()
    }

    /// The sync messages queued so far, oldest first.
    pub closed spec fn queue(&self) -> Seq<SyncMessage<Vec<u8>>> {
        self.sync_queue@
    }

    pub closed spec fn spec_transport(&self) -> Tr {
        self.transport
    }

    pub closed spec fn spec_storage(&self) -> Storage {
        self.storage
    }

    /// An engine with a fresh random replica id.
    pub fn new(storage: Storage, transport: Tr) -> (r: Self)
        ensures
            r.wf(),
            r.spec_state() == SyncState::NotSynced,
            r.peer_map() == Map::<u128, PeerInfo>::empty(),
            r.queue() == Seq::<SyncMessage<Vec<u8>>>::empty(),
            r.spec_storage() == storage,
            r.spec_transport() == transport,
    {
        Self::with_replica_id(storage, transport, ReplicaId::random())
    }

    pub fn with_replica_id(storage: Storage, transport: Tr, replica_id: ReplicaId) -> (r: Self)
        ensures
            r.wf(),
            r.spec_replica_id() == replica_id,
            r.spec_state() == SyncState::NotSynced,
            r.peer_map() == Map::<u128, PeerInfo>::empty(),
            r.queue() == Seq::<SyncMessage<Vec<u8>>>::empty(),
            r.spec_storage() == storage,
            r.spec_transport() == transport,
    {
        SyncEngine {
            replica_id,
            state: SyncState::NotSynced,
            peers: KeyedMap::new(),
            storage,
            transport,
            sync_queue: Vec::new(),
            conflict_resolver: Some(DefaultConflictResolver),
        }
    }

    pub fn state(&self) -> (r: SyncState)
        ensures
            r == self.spec_state(),
    {
        self.state.clone()
    }

    pub fn replica_id(&self) -> (r: ReplicaId)
        ensures
            r == self.spec_replica_id(),
    {
        self.replica_id
    }

    pub fn is_online(&self) -> (r: bool)
        ensures
            r == self.spec_transport().spec_connected(),
    {
        self.transport.is_connected()
    }

    pub fn peer_count(&self) -> (r: usize)
        requires
            self.wf(),
        ensures
            r == self.peer_map().len(),
    {
        self.peers.len()
    }

    /// Starts synchronizing: the state becomes `Syncing`, and the presence
    /// message to announce is handed back.
    pub fn start_sync(&mut self, now: i64) -> (r: SyncMessage<()>)
        ensures
            final(self).spec_state() == SyncState::Syncing,
            final(self).peer_map() == old(self).peer_map(),
            final(self).queue() == old(self).queue(),
            final(self).spec_replica_id() == old(self).spec_replica_id(),
            final(self).wf() == old(self).wf(),
            r == (SyncMessage::<()>::Presence { replica_id: old(self).spec_replica_id(), timestamp: now }),
    {
        self.state = SyncState::Syncing;
        self.presence_message(now)
    }

    /// Stops synchronizing: the state becomes `NotSynced`.
    pub fn stop_sync(&mut self) -> (r: Result<(), SyncEngineError>)
        ensures
            r is Ok,
            final(self).spec_state() == SyncState::NotSynced,
            final(self).peer_map() == old(self).peer_map(),
            final(self).queue() == old(self).queue(),
            final(self).spec_replica_id() == old(self).spec_replica_id(),
            final(self).wf() == old(self).wf(),
    {
        self.state = SyncState::NotSynced;
        Ok(())
    }

    /// Queues a sync of `key` with its encoded value, and hands back the
    /// message to send.
    pub fn sync(&mut self, key: &str, data: Vec<u8>, now: i64) -> (r: SyncMessage<Vec<u8>>)
        ensures
            r matches SyncMessage::Sync { key: k, data: d, replica_id, timestamp } && k@ == key@
                && d@ == data@ && replica_id == old(self).spec_replica_id() && timestamp == now,
            final(self).queue().len() == old(self).queue().len() + 1,
            final(self).queue().take(old(self).queue().len() as int) == old(self).queue(),
            final(self).queue().last() matches SyncMessage::Sync { key: k, data: d, replica_id, timestamp }
                && k@ == key@ && d@ == data@ && replica_id == old(self).spec_replica_id()
                && timestamp == now,
            final(self).spec_state() == old(self).spec_state(),
            final(self).peer_map() == old(self).peer_map(),
            final(self).spec_replica_id() == old(self).spec_replica_id(),
            final(self).wf() == old(self).wf(),
    {
        let queued = SyncMessage::Sync {
            key: String::from_str(key),
            data: data.clone(),
            replica_id: self.replica_id,
            timestamp: now,
        };
        self.sync_queue.push(queued);
        assert(self.sync_queue@.take(old(self).sync_queue@.len() as int) =~= old(self).sync_queue@);
        SyncMessage::Sync { key: String::from_str(key), data, replica_id: self.replica_id, timestamp: now }
    }

    /// The presence announcement of this replica.
    pub fn presence_message(&self, now: i64) -> (r: SyncMessage<()>)
        ensures
            r == (SyncMessage::<()>::Presence { replica_id: self.spec_replica_id(), timestamp: now }),
    {
        SyncMessage::Presence { replica_id: self.replica_id, timestamp: now }
    }

    /// The heartbeat of this replica.
    pub fn heartbeat_message(&self, now: i64) -> (r: SyncMessage<()>)
        ensures
            r == (SyncMessage::<()>::Heartbeat { replica_id: self.spec_replica_id(), timestamp: now }),
    {
        SyncMessage::Heartbeat { replica_id: self.replica_id, timestamp: now }
    }

    /// Handles one message from a peer and hands back the answer to send, if any.
    pub fn handle_message(&mut self, message: SyncMessage<Vec<u8>>) -> (r: Option<SyncMessage<()>>)
        requires
            old(self).wf(),
        ensures
            final(self).wf(),
            final(self).peer_map() == peers_after(old(self).peer_map(), message),
            r == reply_to(message),
            final(self).spec_state() == old(self).spec_state(),
            final(self).queue() == old(self).queue(),
            final(self).spec_replica_id() == old(self).spec_replica_id(),
    {
        match message {
            SyncMessage::Sync { key, data: _, replica_id, timestamp: _ } => {
                Some(SyncMessage::Ack { key, replica_id })
            },
            SyncMessage::Ack { .. } => None,
            SyncMessage::Presence { replica_id, timestamp } => {
                let _ = self.peers.insert(
                    replica_id,
                    PeerInfo {
                        replica_id,
                        last_seen: timestamp,
                        is_online: true,
                        last_sync: None,
                        sync_status: PeerSyncStatus::Never,
                    },
                );
                None
            },
            SyncMessage::Conflict { .. } => None,
            SyncMessage::Heartbeat { replica_id, timestamp } => {
                match self.peers.find(&replica_id) {
                    Some(i) => {
                        let (_k, p) = self.peers.entry_at(i);
                        let mut updated = p.clone();
                        updated.last_seen = timestamp;
                        let _ = self.peers.replace_value_at(i, updated);
                    },
                    None => {},
                }
                None
            },
        }
    }

    /// Handles messages from peers in order, and hands back the answers to
    /// send, in order.
    pub fn process_messages(&mut self, messages: Vec<SyncMessage<Vec<u8>>>) -> (r: Vec<
        SyncMessage<()>,
    >)
        requires
            old(self).wf(),
        ensures
            final(self).wf(),
            final(self).peer_map() == peers_after_all(old(self).peer_map(), messages@),
            r@ == replies_to_all(messages@),
            final(self).spec_state() == old(self).spec_state(),
            final(self).queue() == old(self).queue(),
            final(self).spec_replica_id() == old(self).spec_replica_id(),
    {
        let ghost all = messages@;
        let mut rest = messages;
        let mut replies: Vec<SyncMessage<()>> = Vec::new();
        while rest.len() > 0
            invariant
                self.wf(),
                peers_after_all(old(self).peer_map(), all) == peers_after_all(
                    self.peer_map(),
                    rest@,
                ),
                replies_to_all(all) == replies@ + replies_to_all(rest@),
                self.spec_state() == old(self).spec_state(),
                self.queue() == old(self).queue(),
                self.spec_replica_id() == old(self).spec_replica_id(),
            decreases rest.len(),
        {
            let ghost before = rest@;
            let m = rest.remove(0);
            assert(rest@ =~= before.drop_first());
            let reply = self.handle_message(m);
            match reply {
                Some(a) => {
                    let ghost before_replies = replies@;
                    replies.push(a);
                    assert(replies@ + replies_to_all(rest@) =~= before_replies + (seq![a]
                        + replies_to_all(rest@)));
                },
                None => {},
            }
        }
        assert(replies@ + replies_to_all(rest@) =~= replies@);
        replies
    }

    /// Sends an encoded message; a transport failure is reported with the
    /// transport's message.
    pub fn send_frame(&mut self, frame: &[u8]) -> (r: Result<(), SyncEngineError>)
        ensures
            exists|r0: Result<(), TransportError>| #[trigger]
                old(self).spec_transport().send_outcome(frame@, final(self).spec_transport(), r0)
                && match r0 {
                    Ok(()) => r is Ok,
                    Err(e) => r matches Err(SyncEngineError::Transport(TransportError::SendFailed(m)))
                        && m@ == e.message_text(),
                },
            final(self).spec_state() == old(self).spec_state(),
            final(self).peer_map() == old(self).peer_map(),
            final(self).queue() == old(self).queue(),
            final(self).spec_replica_id() == old(self).spec_replica_id(),
            final(self).wf() == old(self).wf(),
    {
        let sent = self.transport.send(frame);
        let ghost r0 = sent;
        let r = match sent {
            Ok(()) => Ok(()),
            Err(e) => Err(SyncEngineError::Transport(TransportError::SendFailed(e.message()))),
        };
        assert(old(self).spec_transport().send_outcome(frame@, self.spec_transport(), r0));
        r
    }

    /// Takes the encoded messages that arrived; a transport failure is
    /// reported with the transport's message.
    pub fn receive_frames(&mut self) -> (r: Result<Vec<Vec<u8>>, SyncEngineError>)
        ensures
            exists|r0: Result<Vec<Vec<u8>>, TransportError>| #[trigger]
                old(self).spec_transport().receive_outcome(final(self).spec_transport(), r0)
                && match r0 {
                    Ok(frames) => r == Ok::<Vec<Vec<u8>>, SyncEngineError>(frames),
                    Err(e) => r matches Err(SyncEngineError::Transport(TransportError::ReceiveFailed(m)))
                        && m@ == e.message_text(),
                },
            final(self).spec_state() == old(self).spec_state(),
            final(self).peer_map() == old(self).peer_map(),
            final(self).queue() == old(self).queue(),
            final(self).spec_replica_id() == old(self).spec_replica_id(),
            final(self).wf() == old(self).wf(),
    {
        let got = self.transport.receive();
        let ghost r0 = got;
        let r = match got {
            Ok(frames) => Ok(frames),
            Err(e) => Err(SyncEngineError::Transport(TransportError::ReceiveFailed(e.message()))),
        };
        assert(old(self).spec_transport().receive_outcome(self.spec_transport(), r0));
        r
    }

    /// The peers, in the order they were first heard of.
    pub fn peers(&self) -> (r: Vec<(ReplicaId, PeerInfo)>)
        requires
            self.wf(),
        ensures
            r@.len() == self.peer_map().len(),
            forall|i: int| 0 <= i < r@.len() ==> #[trigger] self.peer_map().contains_key(r@[i].0@)
                && self.peer_map()[r@[i].0@] == r@[i].1,
            forall|k: u128| #[trigger] self.peer_map().contains_key(k) ==> exists|i: int|
                0 <= i < r@.len() && #[trigger] r@[i].0@ == k,
    {
        let mut out: Vec<(ReplicaId, PeerInfo)> = Vec::new();
        let n = self.peers.entry_count();
        let mut i: usize = 0;
        while i < n
            invariant
                self.wf(),
                n == self.peers.entries().len(),
                i <= n,
                out@.len() == i,
                forall|j: int| 0 <= j < i ==> out@[j].0 == self.peers.entries()[j].0 && out@[j].1
                    == self.peers.entries()[j].1,
                forall|j: int| 0 <= j < i ==> #[trigger] self.peer_map().contains_key(out@[j].0@)
                    && self.peer_map()[out@[j].0@] == out@[j].1,
            decreases n - i,
        {
            let (k, p) = self.peers.entry_at(i);
            out.push((*k, p.clone()));
            i = i + 1;
        }
        proof {
            self.peers.lemma_key_seq_contains(arbitrary());
            assert forall|k: u128| #[trigger] self.peer_map().contains_key(k) implies exists|
                i: int,
            | 0 <= i < out@.len() && #[trigger] out@[i].0@ == k by {
                self.peers.lemma_index_of_key(k);
                let j = self.peers.index_of(k);
                assert(out@[j].0@ == k);
            }
        }
        out
    }
}

} // verus!
