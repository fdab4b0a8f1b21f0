//! Synchronization: the engine, real-time collaboration, and the legacy
//! manager that merges each value it receives into the one it holds.

pub mod engine;
pub mod realtime;
pub mod end_to_end;

use crate::conflict::Mergeable;
use crate::ids::ReplicaId;
use crate::keyed::KeyedMap;
use crate::storage::StorageError;
use crate::sync::engine::{fresh_peer, PeerInfo, PeerSyncStatus, SyncState};
use crate::transport::{SyncTransport, TransportError};
use vstd::prelude::*;
use vstd::string::*;

verus! {

#[derive(Debug)]
pub enum SyncError {
    Storage(StorageError),
    Transport(TransportError),
    Serialization(serde_json::Error),
    CrdtError(String),
    SyncFailed(String),
    EncryptionError(String),
    AuthenticationError(String),
    GDPRError(String),
}

/// Messages of the legacy synchronization protocol, kept for backward compatibility.
#[derive(Debug)]
pub enum SyncMessage<T> {
    Sync { key: String, data: T },
    Ack { key: String },
    Presence { replica_id: ReplicaId },
}

/// What processing a run of messages leaves: the values held, the peers,
/// the updates made (each key with the value then held), and whether a merge
/// was refused (processing stops there).
pub struct Processed<V> {
    pub store: Map<Seq<char>, V>,
    pub peers: Map<u128, PeerInfo>,
    pub updates: Seq<(Seq<char>, V)>,
    pub refused: bool,
}

/// Processing messages in order: a sync merges the received value into the
/// held one (or holds it, where there was none), a presence registers its
/// sender as seen at `now`, an acknowledgment changes nothing.
pub open spec fn process_all<V: Mergeable>(
    store: Map<Seq<char>, V>,
    peers: Map<u128, PeerInfo>,
    ms: Seq<SyncMessage<V>>,
    now: i64,
) -> Processed<V>
    decreases ms.len(),
{
    if ms.len() == 0 {
        Processed { store, peers, updates: Seq::empty(), refused: false }
    } else {
        match ms[0] {
            SyncMessage::Sync { key, data } => if store.contains_key(key@) {
                match store[key@].spec_merge(data) {
                    Some(m) => {
                        let rest = process_all(store.insert(key@, m), peers, ms.drop_first(), now);
                        Processed {
                            store: rest.store,
                            peers: rest.peers,
                            updates: seq![(key@, m)] + rest.updates,
                            refused: rest.refused,
                        }
                    },
                    None => Processed { store, peers, updates: Seq::empty(), refused: true },
                }
            } else {
                let rest = process_all(store.insert(key@, data), peers, ms.drop_first(), now);
                Processed {
                    store: rest.store,
                    peers: rest.peers,
                    updates: seq![(key@, data)] + rest.updates,
                    refused: rest.refused,
                }
            },
            SyncMessage::Ack { .. } => process_all(store, peers, ms.drop_first(), now),
            SyncMessage::Presence { replica_id } => process_all(
                store,
                peers.insert(replica_id@, fresh_peer(replica_id, now)),
                ms.drop_first(),
                now,
            ),
        }
    }
}

/// A value received for a key is held as received where nothing was held,
/// and otherwise the merge of the held value with it is held; a refused
/// merge leaves everything as it was. Either way one update is reported,
/// unless the merge is refused.
pub proof fn law_receive_holds_merge<V: Mergeable>(
    store: Map<Seq<char>, V>,
    peers: Map<u128, PeerInfo>,
    key: String,
    data: V,
    now: i64,
)
    ensures
        ({
            let p = process_all(store, peers, seq![SyncMessage::Sync { key, data }], now);
            &&& !store.contains_key(key@) ==> p.store == store.insert(key@, data) && p.updates
                == seq![(key@, data)] && !p.refused
            &&& store.contains_key(key@) ==> match store[key@].spec_merge(data) {
                Some(m) => p.store == store.insert(key@, m) && p.updates == seq![(key@, m)]
                    && !p.refused,
                None => p.store == store && p.refused,
            }
            &&& p.peers == peers
        }),
{
    let ms = seq![SyncMessage::Sync { key, data }];
    assert(ms.drop_first() =~= Seq::<SyncMessage<V>>::empty());
    assert(ms[0] == SyncMessage::Sync { key, data });
    reveal_with_fuel(process_all, 2);
    if store.contains_key(key@) {
        match store[key@].spec_merge(data) {
            Some(m) => {
                assert(seq![(key@, m)] + Seq::<(Seq<char>, V)>::empty() =~= seq![(key@, m)]);
            },
            None => {},
        }
    } else {
        assert(seq![(key@, data)] + Seq::<(Seq<char>, V)>::empty() =~= seq![(key@, data)]);
    }
}

/// The message of a failed sync caused by a transport failure.
fn transport_failure(e: &TransportError) -> (r: String)
    ensures
        "Transport error: "@.is_prefix_of(r@),
        r@ == "Transport error: "@ + e.message_text(),
{
    let r = String::from_str("Transport error: ").concat(e.message().as_str());
    assert(r@.subrange(0, "Transport error: "@.len() as int) =~= "Transport error: "@);
    r
}

/// `us` are copies of the updates `ds`: the same keys, each value a clone.
pub open spec fn copies_of<V: Clone>(us: Seq<(String, V)>, ds: Seq<(Seq<char>, V)>) -> bool {
    &&& us.len() == ds.len()
    &&& forall|i: int|
        0 <= i < ds.len() ==> #[trigger] us[i].0@ == ds[i].0 && cloned::<V>(ds[i].1, us[i].1)
}

proof fn lemma_copies_push<V: Clone>(
    us: Seq<(String, V)>,
    ds: Seq<(Seq<char>, V)>,
    k: String,
    v: V,
    c: V,
)
    requires
        copies_of(us, ds),
        cloned::<V>(v, c),
    ensures
        copies_of(us.push((k, c)), ds.push((k@, v))),
{
    assert forall|i: int| 0 <= i < ds.push((k@, v)).len() implies #[trigger] us.push((k, c))[i].0@
        == ds.push((k@, v))[i].0 && cloned::<V>(ds.push((k@, v))[i].1, us.push((k, c))[i].1) by {
        if i < ds.len() {
            assert(us.push((k, c))[i] == us[i]);
            assert(ds.push((k@, v))[i] == ds[i]);
        }
    }
}

/// The legacy synchronization manager: it holds values by key, merges
/// what peers send into them, and keeps track of the peers it hears of.
pub struct SyncManager<T: SyncTransport, V: Mergeable> {
    replica_id: ReplicaId,
    state: SyncState,
    peers: KeyedMap<ReplicaId, PeerInfo>,
    store: KeyedMap<String, V>,
    transport: T,
}

impl<T: SyncTransport, V: Mergeable> SyncManager<T, V> {
    pub closed spec fn wf(&self) -> bool {
        self.peers.wf() && self.store.wf()
    }

    pub closed spec fn spec_replica_id(&self) -> ReplicaId {
        self.replica_id
    }

    pub closed spec fn spec_state(&self) -> SyncState {
        self.state
    }

    pub closed spec fn peer_map(&self) -> Map<u128, PeerInfo> {
        self.peers.map()
    }

    /// The values held, by key.
    pub closed spec fn values(&self) -> Map<Seq<char>, V> {
        self.store.map()
    }

    pub closed spec fn spec_transport(&self) -> T {
        self.transport
    }

    /// A manager with a fresh random replica id.
    pub fn new(transport: T) -> (r: Self)
        ensures
            r.wf(),
            r.spec_state() == SyncState::NotSynced,
            r.peer_map() == Map::<u128, PeerInfo>::empty(),
            r.values() == Map::<Seq<char>, V>::empty(),
            r.spec_transport() == transport,
    {
        Self::with_replica_id(transport, ReplicaId::random())
    }

    pub fn with_replica_id(transport: T, replica_id: ReplicaId) -> (r: Self)
        ensures
            r.wf(),
            r.spec_replica_id() == replica_id,
            r.spec_state() == SyncState::NotSynced,
            r.peer_map() == Map::<u128, PeerInfo>::empty(),
            r.values() == Map::<Seq<char>, V>::empty(),
            r.spec_transport() == transport,
    {
        SyncManager {
            replica_id,
            state: SyncState::NotSynced,
            peers: KeyedMap::new(),
            store: KeyedMap::new(),
            transport,
        }
    }

    pub fn state(&self) -> (r: &SyncState)
        ensures
            *r == self.spec_state(),
    {
        &self.state
    }

    pub fn replica_id(&self) -> (r: ReplicaId)
        ensures
            r == self.spec_replica_id(),
    {
        self.replica_id
    }

    pub fn is_online(&self) -> (r: bool)
        ensures
            r == self.spec_transport().spec_connected(),
    {
        self.transport.is_connected()
    }

    pub fn peer_count(&self) -> (r: usize)
        requires
            self.wf(),
        ensures
            r == self.peer_map().len(),
    {
        self.peers.len()
    }

    /// The value held under a key.
    pub fn get(&self, key: &str) -> (r: Option<&V>)
        requires
            self.wf(),
        ensures
            r is None <==> !self.values().contains_key(key@),
            r matches Some(v) ==> *v == self.values()[key@],
    {
        self.store.get(&String::from_str(key))
    }

    /// Holds `value` under `key`, and hands back the message that announces
    /// it where the transport is connected (a copy of the value).
    pub fn sync(&mut self, key: &str, value: V) -> (r: Option<SyncMessage<V>>)
        requires
            old(self).wf(),
        ensures
            final(self).wf(),
            final(self).values() == old(self).values().insert(key@, value),
            r is Some == old(self).spec_transport().spec_connected(),
            r matches Some(m) ==> (m matches SyncMessage::Sync { key: k, data } && k@ == key@
                && cloned::<V>(value, data)),
            final(self).peer_map() == old(self).peer_map(),
            final(self).spec_state() == old(self).spec_state(),
            final(self).spec_transport() == old(self).spec_transport(),
            final(self).spec_replica_id() == old(self).spec_replica_id(),
    {
        let announce = if self.transport.is_connected() {
            Some(SyncMessage::Sync { key: String::from_str(key), data: value.clone() })
        } else {
            None
        };
        let _ = self.store.insert(String::from_str(key), value);
        announce
    }

    /// Processes messages in order (see [`process_all`]); hands back the
    /// updates, each with a copy of the value then held, or the refusal of
    /// a merge, after which the remaining messages are left unprocessed.
    pub fn process_messages(&mut self, messages: Vec<SyncMessage<V>>, now: i64) -> (r: Result<
        Vec<(String, V)>,
        SyncError,
    >)
        requires
            old(self).wf(),
        ensures
            final(self).wf(),
            ({
                let p = process_all(old(self).values(), old(self).peer_map(), messages@, now);
                &&& final(self).values() == p.store
                &&& final(self).peer_map() == p.peers
                &&& p.refused <==> r is Err
                &&& r matches Err(e) ==> (e matches SyncError::CrdtError(_))
                &&& r matches Ok(ups) ==> ups@.len() == p.updates.len() && forall|i: int|
                    0 <= i < ups@.len() ==> #[trigger] ups@[i].0@ == p.updates[i].0 && cloned::<V>(
                        p.updates[i].1,
                        ups@[i].1,
                    )
            }),
            final(self).spec_state() == old(self).spec_state(),
            final(self).spec_transport() == old(self).spec_transport(),
            final(self).spec_replica_id() == old(self).spec_replica_id(),
    {
        let ghost all = messages@;
        let ghost goal = process_all(old(self).values(), old(self).peer_map(), all, now);
        let mut rest = messages;
        let mut updates: Vec<(String, V)> = Vec::new();
        let ghost mut done: Seq<(Seq<char>, V)> = Seq::empty();
        while rest.len() > 0
            invariant
                self.wf(),
                all == messages@,
                goal == process_all(old(self).values(), old(self).peer_map(), all, now),
                ({
                    let p = process_all(self.values(), self.peer_map(), rest@, now);
                    &&& p.store == goal.store
                    &&& p.peers == goal.peers
                    &&& p.refused == goal.refused
                    &&& goal.updates == done + p.updates
                }),
                copies_of(updates@, done),
                self.spec_state() == old(self).spec_state(),
                self.spec_transport() == old(self).spec_transport(),
                self.spec_replica_id() == old(self).spec_replica_id(),
            decreases rest.len(),
        {
            let ghost before = rest@;
            let ghost store0 = self.values();
            let ghost peers0 = self.peer_map();
            let m = rest.remove(0);
            let ghost gm = m;
            assert(rest@ =~= before.drop_first());
            match m {
                SyncMessage::Sync { key, data } => {
                    match self.store.remove(&key) {
                        Some(mut existing) => {
                            match existing.merge(&data) {
                                Err(e) => {
                                    let _ = self.store.insert(key, existing);
                                    proof {
                                        assert(self.values() =~= store0);
                                        assert(before[0] == gm);
                                        assert(process_all(store0, peers0, before, now).refused);
                                        assert(process_all(store0, peers0, before, now).store
                                            == store0);
                                        assert(process_all(store0, peers0, before, now).peers
                                            == peers0);
                                        assert(goal.refused);
                                        assert(goal.store == store0);
                                        assert(goal.peers == peers0);
                                    }
                                    return Err(SyncError::CrdtError(e));
                                },
                                Ok(()) => {},
                            }
                            let copy = existing.clone();
                            let ghost mm = existing;
                            let _ = self.store.insert(key.clone(), existing);
                            proof {
                                lemma_copies_push(updates@, done, key, mm, copy);
                                assert(self.values() =~= store0.insert(key@, mm));
                                done = done.push((key@, mm));
                                assert(goal.updates == done + process_all(
                                    self.values(),
                                    self.peer_map(),
                                    rest@,
                                    now,
                                ).updates);
                            }
                            updates.push((key, copy));
                        },
                        None => {
                            let copy = data.clone();
                            let ghost dd = data;
                            let _ = self.store.insert(key.clone(), data);
                            proof {
                                lemma_copies_push(updates@, done, key, dd, copy);
                                assert(self.values() =~= store0.insert(key@, data));
                                done = done.push((key@, data));
                                assert(goal.updates == done + process_all(
                                    self.values(),
                                    self.peer_map(),
                                    rest@,
                                    now,
                                ).updates);
                            }
                            updates.push((key, copy));
                        },
                    }
                },
                SyncMessage::Ack { .. } => {},
                SyncMessage::Presence { replica_id } => {
                    let _ = self.peers.insert(
                        replica_id,
                        PeerInfo {
                            replica_id,
                            last_seen: now,
                            is_online: true,
                            last_sync: None,
                            sync_status: PeerSyncStatus::Never,
                        },
                    );
                },
            }
        }
        assert(goal.updates =~= done);
        Ok(updates)
    }

    /// Sends an encoded message; a transport failure becomes a failed sync
    /// that names it.
    pub fn send_frame(&mut self, frame: &[u8]) -> (r: Result<(), SyncError>)
        ensures
            exists|r0: Result<(), TransportError>| #[trigger]
                old(self).spec_transport().send_outcome(frame@, final(self).spec_transport(), r0)
                && match r0 {
                    Ok(()) => r is Ok,
                    Err(e) => r matches Err(SyncError::SyncFailed(m)) && m@ == "Transport error: "@
                        + e.message_text(),
                },
            r matches Err(e) ==> (e matches SyncError::SyncFailed(m) && "Transport error: "@.is_prefix_of(m@)),
            final(self).values() == old(self).values(),
            final(self).peer_map() == old(self).peer_map(),
            final(self).spec_state() == old(self).spec_state(),
            final(self).spec_replica_id() == old(self).spec_replica_id(),
            final(self).wf() == old(self).wf(),
    {
        let sent = self.transport.send(frame);
        let ghost r0 = sent;
        let r = match sent {
            Ok(()) => Ok(()),
            Err(e) => Err(SyncError::SyncFailed(transport_failure(&e))),
        };
        assert(old(self).spec_transport().send_outcome(frame@, self.spec_transport(), r0));
        r
    }

    /// Takes the encoded messages that arrived; a transport failure becomes
    /// a failed sync that names it.
    pub fn receive_frames(&mut self) -> (r: Result<Vec<Vec<u8>>, SyncError>)
        ensures
            exists|r0: Result<Vec<Vec<u8>>, TransportError>| #[trigger]
                old(self).spec_transport().receive_outcome(final(self).spec_transport(), r0)
                && match r0 {
                    Ok(frames) => r == Ok::<Vec<Vec<u8>>, SyncError>(frames),
                    Err(e) => r matches Err(SyncError::SyncFailed(m)) && m@ == "Transport error: "@
                        + e.message_text(),
                },
            r matches Err(e) ==> (e matches SyncError::SyncFailed(m) && "Transport error: "@.is_prefix_of(m@)),
            final(self).values() == old(self).values(),
            final(self).peer_map() == old(self).peer_map(),
            final(self).spec_state() == old(self).spec_state(),
            final(self).spec_replica_id() == old(self).spec_replica_id(),
            final(self).wf() == old(self).wf(),
    {
        let got = self.transport.receive();
        let ghost r0 = got;
        let r = match got {
            Ok(frames) => Ok(frames),
            Err(e) => Err(SyncError::SyncFailed(transport_failure(&e))),
        };
        assert(old(self).spec_transport().receive_outcome(self.spec_transport(), r0));
        r
    }

    /// The presence announcement, where the transport is connected.
    pub fn announce_presence(&self) -> (r: Option<SyncMessage<()>>)
        ensures
            r is Some == self.spec_transport().spec_connected(),
            r matches Some(m) ==> m == (SyncMessage::<()>::Presence {
                replica_id: self.spec_replica_id(),
            }),
    {
        if !self.transport.is_connected() {
            return None;
        }
        Some(SyncMessage::Presence { replica_id: self.replica_id })
    }

    /// The peers, in the order they were first heard of.
    pub fn peers(&self) -> (r: Vec<(ReplicaId, PeerInfo)>)
        requires
            self.wf(),
        ensures
            r@.len() == self.peer_map().len(),
            forall|i: int| 0 <= i < r@.len() ==> #[trigger] self.peer_map().contains_key(r@[i].0@)
                && self.peer_map()[r@[i].0@] == r@[i].1,
    {
        let mut out: Vec<(ReplicaId, PeerInfo)> = Vec::new();
        let n = self.peers.entry_count();
        let mut i: usize = 0;
        while i < n
            invariant
                self.wf(),
                n == self.peers.entries().len(),
                i <= n,
                out@.len() == i,
                forall|j: int| 0 <= j < i ==> #[trigger] self.peer_map().contains_key(out@[j].0@)
                    && self.peer_map()[out@[j].0@] == out@[j].1,
            decreases n - i,
        {
            let (k, p) = self.peers.entry_at(i);
            out.push((*k, p.clone()));
            i = i + 1;
        }
        proof {
            self.peers.lemma_key_seq_contains(arbitrary());
        }
        out
    }
}

} // verus!
