//! Real-time collaboration: the change, presence, departure and heartbeat
//! messages a replica sends, the events it raises, and which subscriptions
//! each event reaches.
//!
//! Encoding messages and calling the subscribers' callbacks is left to the
//! caller: the manager says which message goes out and which subscriptions an
//! event reaches.

use crate::ids::{random_uuid_string, ReplicaId};
use crate::keyed::KeyedMap;
use crate::storage::{Contents, Storage};
use crate::text::{strings_contain, texts};
use crate::transport::{SyncTransport, TransportError};
use vstd::prelude::*;
use vstd::string::*;

verus! {

#[derive(Debug)]
pub enum RealtimeSyncError {
    Transport(String),
    Storage(String),
    Serialization(String),
    SubscriptionNotFound(String),
    InvalidOperation(String),
}

/// Kind of change to a document.
#[derive(Clone, Copy, Debug, PartialEq, Eq, Structural)]
pub enum ChangeType {
    Created,
    Updated,
    Deleted,
    Merged,
}

/// What a user shows of themselves.
#[derive(Debug, PartialEq, Eq)]
pub struct UserInfo {
    pub name: Option<String>,
    pub avatar: Option<String>,
    pub color: Option<String>,
}

impl Clone for UserInfo {
    fn clone(&self) -> (r: Self)
        ensures
            r == *self,
    {
        UserInfo { name: self.name.clone(), avatar: self.avatar.clone(), color: self.color.clone() }
    }
}

/// Real-time events (timestamps in milliseconds since the Unix epoch).
#[derive(Clone, Debug)]
pub enum RealtimeEvent {
    DocumentChanged { key: String, replica_id: ReplicaId, timestamp: i64, change_type: ChangeType },
    UserJoined { replica_id: ReplicaId, timestamp: i64, user_info: Option<UserInfo> },
    UserLeft { replica_id: ReplicaId, timestamp: i64 },
    SyncStarted { replica_id: ReplicaId, timestamp: i64 },
    SyncCompleted { replica_id: ReplicaId, timestamp: i64, changes_synced: usize },
    ConflictDetected { key: String, replica_id: ReplicaId, timestamp: i64, conflict_type: String },
}

/// The name by which subscriptions ask for an event.
pub open spec fn event_type(e: RealtimeEvent) -> Seq<char> {
    match e {
        RealtimeEvent::DocumentChanged { .. } => "document_changed"@,
        RealtimeEvent::UserJoined { .. } => "user_joined"@,
        RealtimeEvent::UserLeft { .. } => "user_left"@,
        RealtimeEvent::SyncStarted { .. } => "sync_started"@,
        RealtimeEvent::SyncCompleted { .. } => "sync_completed"@,
        RealtimeEvent::ConflictDetected { .. } => "conflict_detected"@,
    }
}

pub fn event_type_name(e: &RealtimeEvent) -> (r: &'static str)
    ensures
        r@ == event_type(*e),
{
    proof {
        reveal_strlit("document_changed");
        reveal_strlit("user_joined");
        reveal_strlit("user_left");
        reveal_strlit("sync_started");
        reveal_strlit("sync_completed");
        reveal_strlit("conflict_detected");
    }
    match e {
        RealtimeEvent::DocumentChanged { .. } => "document_changed",
        RealtimeEvent::UserJoined { .. } => "user_joined",
        RealtimeEvent::UserLeft { .. } => "user_left",
        RealtimeEvent::SyncStarted { .. } => "sync_started",
        RealtimeEvent::SyncCompleted { .. } => "sync_completed",
        RealtimeEvent::ConflictDetected { .. } => "conflict_detected",
    }
}

/// A subscription: the event types it asks for (`*` for all). The callback
/// that receives the events stays with the caller, under the same id.
#[derive(Debug)]
pub struct Subscription {
    pub id: String,
    pub event_types: Vec<String>,
}

/// A subscription asking for these types wants an event of type `t`.
pub open spec fn wants(types: Seq<Seq<char>>, t: Seq<char>) -> bool {
    types.contains(t) || types.contains("*"@)
}

/// Unsubscribing a subscription just made leaves the subscriptions as they
/// were before it.
pub proof fn law_unsubscribe_undoes_subscribe(
    subs: Map<Seq<char>, Seq<Seq<char>>>,
    id: Seq<char>,
    types: Seq<Seq<char>>,
)
    requires
        !subs.contains_key(id),
    ensures
        subs.insert(id, types).remove(id) == subs,
{
    assert(subs.insert(id, types).remove(id) =~= subs);
}

/// Both events are of the same kind.
pub open spec fn same_kind(a: RealtimeEvent, b: RealtimeEvent) -> bool {
    ||| a is DocumentChanged && b is DocumentChanged
    ||| a is UserJoined && b is UserJoined
    ||| a is UserLeft && b is UserLeft
    ||| a is SyncStarted && b is SyncStarted
    ||| a is SyncCompleted && b is SyncCompleted
    ||| a is ConflictDetected && b is ConflictDetected
}

/// Each kind of event goes by its own name in the event schema.
pub proof fn law_event_kinds_use_schema_names(e: RealtimeEvent)
    ensures
        e is DocumentChanged ==> event_type(e) == "document_changed"@,
        e is UserJoined ==> event_type(e) == "user_joined"@,
        e is UserLeft ==> event_type(e) == "user_left"@,
        e is SyncStarted ==> event_type(e) == "sync_started"@,
        e is SyncCompleted ==> event_type(e) == "sync_completed"@,
        e is ConflictDetected ==> event_type(e) == "conflict_detected"@,
{
}

/// Two events share a name exactly when they are of the same kind, and no
/// kind is named like the wildcard.
pub proof fn law_event_names_distinguish_kinds(a: RealtimeEvent, b: RealtimeEvent)
    ensures
        event_type(a) == event_type(b) <==> same_kind(a, b),
        event_type(a) != "*"@,
{
    reveal_strlit("document_changed");
    reveal_strlit("user_joined");
    reveal_strlit("user_left");
    reveal_strlit("sync_started");
    reveal_strlit("sync_completed");
    reveal_strlit("conflict_detected");
    reveal_strlit("*");
    if same_kind(a, b) {
        assert(event_type(a) == event_type(b));
    } else {
        assert(event_type(a).len() != event_type(b).len());
    }
    assert(event_type(a).len() != "*"@.len());
}

/// A subscription to the name of one kind of event receives the events of
/// that kind and no others.
pub proof fn law_subscription_to_a_kind_hears_only_that_kind(k: RealtimeEvent, e: RealtimeEvent)
    ensures
        wants(seq![event_type(k)], event_type(e)) <==> same_kind(k, e),
{
    law_event_names_distinguish_kinds(k, e);
    law_event_names_distinguish_kinds(k, k);
    let s = seq![event_type(k)];
    assert(s.len() == 1 && s[0] == event_type(k));
    assert(s.contains(event_type(e)) <==> event_type(k) == event_type(e));
    assert(!s.contains("*"@));
}

/// A subscription to `*` receives every event, and a subscription to an
/// event's type receives it.
pub proof fn law_wildcard_receives_everything(types: Seq<Seq<char>>, e: RealtimeEvent)
    ensures
        types.contains("*"@) ==> wants(types, event_type(e)),
        types.contains(event_type(e)) ==> wants(types, event_type(e)),
{
}

/// Synchronization state of the real-time manager.
#[derive(Clone, Debug)]
pub struct SyncState {
    pub is_syncing: bool,
    pub last_sync: Option<i64>,
    pub connected_users: usize,
    pub pending_changes: usize,
    pub sync_errors: Vec<String>,
}

/// A change broadcast to peers: the key, the encoded value, who changed it and when.
#[derive(Debug)]
pub struct ChangeMessage {
    pub key: String,
    pub data: Vec<u8>,
    pub replica_id: ReplicaId,
    pub timestamp: i64,
    pub change_type: ChangeType,
}

/// Announces a replica's presence.
#[derive(Debug)]
pub struct PresenceMessage {
    pub replica_id: ReplicaId,
    pub timestamp: i64,
    pub user_info: Option<UserInfo>,
}

/// Announces a replica's departure.
#[derive(Debug)]
pub struct DepartureMessage {
    pub replica_id: ReplicaId,
    pub timestamp: i64,
}

/// Keeps a replica's connection alive.
#[derive(Debug)]
pub struct HeartbeatMessage {
    pub replica_id: ReplicaId,
    pub timestamp: i64,
}

/// The event raised by a change received from a peer.
pub open spec fn change_event(c: ChangeMessage) -> RealtimeEvent {
    RealtimeEvent::DocumentChanged {
        key: c.key,
        replica_id: c.replica_id,
        timestamp: c.timestamp,
        change_type: c.change_type,
    }
}

/// The real-time synchronization manager of one replica.
pub struct RealtimeSyncManager<Tr: SyncTransport> {
    replica_id: ReplicaId,
    transport: Tr,
    storage: Storage,
    subscriptions: KeyedMap<String, Subscription>,
    active_users: KeyedMap<ReplicaId, UserInfo>,
    sync_state: SyncState,
    heartbeat_interval_ms: u64,
    presence_timeout_ms: u64,
}

impl<Tr: SyncTransport> RealtimeSyncManager<Tr> {
    pub closed spec fn wf(&self) -> bool {
        &&& self.subscriptions.wf()
        &&& self.active_users.wf()
        &&& self.storage.wf()
        &&& forall|k: Seq<char>| #[trigger] self.subscriptions.map().contains_key(k)
            ==> self.subscriptions.map()[k].id@ == k
    }

    pub closed spec fn spec_replica_id(&self) -> ReplicaId {
        self.replica_id
    }

    pub closed spec fn spec_sync_state(&self) -> SyncState {
        self.sync_state
    }

    /// The event types of each subscription, by id.
    pub closed spec fn subscription_types(&self) -> Map<Seq<char>, Seq<Seq<char>>> {
        self.subscriptions.map().map_values(|s: Subscription| texts(s.event_types@))
    }

    /// The subscription ids, in the order they were made.
    pub closed spec fn subscription_order(&self) -> Seq<Seq<char>> {
        self.subscriptions.key_seq()
    }

    pub closed spec fn users(&self) -> Map<u128, UserInfo> {
        self.active_users.map()
    }

    pub closed spec fn stored(&self) -> Contents {
        self.storage.contents()
    }

    pub closed spec fn spec_transport(&self) -> Tr {
        self.transport
    }

    pub closed spec fn heartbeat_interval(&self) -> u64 {
        self.heartbeat_interval_ms
    }

    pub closed spec fn presence_timeout(&self) -> u64 {
        self.presence_timeout_ms
    }

    /// A manager that is not syncing, with no subscriptions and no users;
    /// heartbeats every 30 s, presence lapses after 120 s.
    pub fn new(replica_id: ReplicaId, transport: Tr, storage: Storage) -> (r: Self)
        requires
            storage.wf(),
        ensures
            r.wf(),
            r.spec_replica_id() == replica_id,
            !r.spec_sync_state().is_syncing,
            r.spec_sync_state().last_sync is None,
            r.spec_sync_state().connected_users == 0,
            r.spec_sync_state().pending_changes == 0,
            r.spec_sync_state().sync_errors@.len() == 0,
            r.subscription_types() == Map::<Seq<char>, Seq<Seq<char>>>::empty(),
            r.users() == Map::<u128, UserInfo>::empty(),
            r.stored() == storage.contents(),
            r.spec_transport() == transport,
            r.heartbeat_interval() == 30000,
            r.presence_timeout() == 120000,
    {
        let r = RealtimeSyncManager {
            replica_id,
            transport,
            storage,
            subscriptions: KeyedMap::new(),
            active_users: KeyedMap::new(),
            sync_state: SyncState {
                is_syncing: false,
                last_sync: None,
                connected_users: 0,
                pending_changes: 0,
                sync_errors: Vec::new(),
            },
            heartbeat_interval_ms: 30000,
            presence_timeout_ms: 120000,
        };
        assert(r.subscription_types() =~= Map::<Seq<char>, Seq<Seq<char>>>::empty());
        r
    }

    pub fn replica_id(&self) -> (r: ReplicaId)
        ensures
            r == self.spec_replica_id(),
    {
        self.replica_id
    }

    /// Starts syncing; hands back the presence announcement to send and the
    /// event to raise.
    pub fn start(&mut self, now: i64) -> (r: (PresenceMessage, RealtimeEvent))
        requires
            old(self).wf(),
        ensures
            final(self).wf(),
            final(self).spec_sync_state().is_syncing,
            final(self).spec_sync_state().last_sync == old(self).spec_sync_state().last_sync,
            final(self).spec_sync_state().pending_changes == old(self).spec_sync_state().pending_changes,
            r.0 == (PresenceMessage { replica_id: old(self).spec_replica_id(), timestamp: now, user_info: None }),
            r.1 == (RealtimeEvent::SyncStarted { replica_id: old(self).spec_replica_id(), timestamp: now }),
            final(self).subscription_types() == old(self).subscription_types(),
            final(self).subscription_order() == old(self).subscription_order(),
            final(self).stored() == old(self).stored(),
            final(self).spec_replica_id() == old(self).spec_replica_id(),
    {
        self.sync_state.is_syncing = true;
        (
            self.presence_message(now),
            RealtimeEvent::SyncStarted { replica_id: self.replica_id, timestamp: now },
        )
    }

    /// Stops syncing; hands back the departure announcement to send and the
    /// event to raise.
    pub fn stop(&mut self, now: i64) -> (r: (DepartureMessage, RealtimeEvent))
        requires
            old(self).wf(),
        ensures
            final(self).wf(),
            !final(self).spec_sync_state().is_syncing,
            final(self).spec_sync_state().last_sync == old(self).spec_sync_state().last_sync,
            final(self).spec_sync_state().pending_changes == old(self).spec_sync_state().pending_changes,
            r.0 == (DepartureMessage { replica_id: old(self).spec_replica_id(), timestamp: now }),
            r.1 == (RealtimeEvent::SyncCompleted {
                replica_id: old(self).spec_replica_id(),
                timestamp: now,
                changes_synced: 0,
            }),
            final(self).subscription_types() == old(self).subscription_types(),
            final(self).subscription_order() == old(self).subscription_order(),
            final(self).stored() == old(self).stored(),
            final(self).spec_replica_id() == old(self).spec_replica_id(),
    {
        self.sync_state.is_syncing = false;
        (
            DepartureMessage { replica_id: self.replica_id, timestamp: now },
            RealtimeEvent::SyncCompleted { replica_id: self.replica_id, timestamp: now, changes_synced: 0 },
        )
    }

    /// Adds a subscription under a fresh random id, and hands back the id.
    pub fn subscribe(&mut self, event_types: Vec<String>) -> (r: Result<String, RealtimeSyncError>)
        requires
            old(self).wf(),
        ensures
            final(self).wf(),
            r matches Ok(id) && id@.len() == 36 && final(self).subscription_types() == old(self).subscription_types().insert(
                id@,
                texts(event_types@),
            ),
            final(self).stored() == old(self).stored(),
            final(self).spec_sync_state() == old(self).spec_sync_state(),
            final(self).spec_replica_id() == old(self).spec_replica_id(),
    {
        let id = random_uuid_string();
        let ghost types = event_types@;
        let sub = Subscription { id: id.clone(), event_types };
        let _ = self.subscriptions.insert(id.clone(), sub);
        proof {
            assert(self.subscription_types() =~= old(self).subscription_types().insert(
                id@,
                texts(types),
            ));
            assert forall|k: Seq<char>| #[trigger] self.subscriptions.map().contains_key(k) implies self.subscriptions.map()[k].id@ == k by {
                if k != id@ {
                    assert(old(self).subscriptions.map().contains_key(k));
                }
            }
        }
        Ok(id)
    }

    /// Removes a subscription.
    pub fn unsubscribe(&mut self, subscription_id: &str) -> (r: Result<(), RealtimeSyncError>)
        requires
            old(self).wf(),
        ensures
            final(self).wf(),
            old(self).subscription_types().contains_key(subscription_id@) ==> r is Ok
                && final(self).subscription_types() == old(self).subscription_types().remove(
                subscription_id@,
            ),
            !old(self).subscription_types().contains_key(subscription_id@) ==> (r matches Err(
                RealtimeSyncError::SubscriptionNotFound(s),
            ) && s@ == subscription_id@) && final(self).subscription_types()
                == old(self).subscription_types(),
            final(self).stored() == old(self).stored(),
            final(self).spec_sync_state() == old(self).spec_sync_state(),
    {
        let key = String::from_str(subscription_id);
        match self.subscriptions.remove(&key) {
            Some(_) => {
                proof {
                    assert(self.subscription_types() =~= old(self).subscription_types().remove(
                        subscription_id@,
                    ));
                    assert forall|k: Seq<char>| #[trigger] self.subscriptions.map().contains_key(k) implies self.subscriptions.map()[k].id@ == k by {
                        assert(old(self).subscriptions.map().contains_key(k));
                    }
                }
                Ok(())
            },
            None => {
                proof {
                    assert(self.subscription_types() =~= old(self).subscription_types());
                }
                Err(RealtimeSyncError::SubscriptionNotFound(key))
            },
        }
    }

    /// Stores a changed value (already encoded) under its key, and hands back
    /// the change message to send and the event to raise.
    pub fn broadcast_change(
        &mut self,
        key: &str,
        encoded: Vec<u8>,
        change_type: ChangeType,
        now: i64,
    ) -> (r: Result<(ChangeMessage, RealtimeEvent), RealtimeSyncError>)
        requires
            old(self).wf(),
        ensures
            final(self).wf(),
            final(self).stored() == old(self).stored().insert(key@, encoded@),
            r matches Ok((m, e)) && m.key@ == key@ && m.data@ == encoded@ && m.replica_id
                == old(self).spec_replica_id() && m.timestamp == now && m.change_type == change_type
                && (e matches RealtimeEvent::DocumentChanged { key: k, replica_id, timestamp, change_type: c }
                && k@ == key@ && replica_id == old(self).spec_replica_id() && timestamp == now && c
                == change_type),
            final(self).subscription_types() == old(self).subscription_types(),
            final(self).spec_sync_state() == old(self).spec_sync_state(),
            final(self).spec_replica_id() == old(self).spec_replica_id(),
    {
        match self.storage.set(key, encoded.clone()) {
            Ok(()) => {},
            Err(e) => {
                return Err(RealtimeSyncError::Storage(e.message()));
            },
        }
        let message = ChangeMessage {
            key: String::from_str(key),
            data: encoded,
            replica_id: self.replica_id,
            timestamp: now,
            change_type,
        };
        let event = RealtimeEvent::DocumentChanged {
            key: String::from_str(key),
            replica_id: self.replica_id,
            timestamp: now,
            change_type,
        };
        Ok((message, event))
    }

    /// Takes the encoded messages that arrived from peers; a transport
    /// failure is reported with the transport's message.
    pub fn receive_frames(&mut self) -> (r: Result<Vec<Vec<u8>>, RealtimeSyncError>)
        ensures
            exists|r0: Result<Vec<Vec<u8>>, TransportError>| #[trigger]
                old(self).spec_transport().receive_outcome(final(self).spec_transport(), r0)
                && match r0 {
                    Ok(frames) => r == Ok::<Vec<Vec<u8>>, RealtimeSyncError>(frames),
                    Err(e) => r matches Err(RealtimeSyncError::Transport(m)) && m@ == e.message_text(),
                },
            final(self).wf() == old(self).wf(),
            final(self).spec_sync_state() == old(self).spec_sync_state(),
            final(self).subscription_types() == old(self).subscription_types(),
            final(self).stored() == old(self).stored(),
            final(self).spec_replica_id() == old(self).spec_replica_id(),
    {
        let got = self.transport.receive();
        let ghost r0 = got;
        let r = match got {
            Ok(frames) => Ok(frames),
            Err(e) => Err(RealtimeSyncError::Transport(e.message())),
        };
        assert(old(self).spec_transport().receive_outcome(self.spec_transport(), r0));
        r
    }

    /// Takes in the changes received from peers: each raises a document
    /// change event, the sync time is recorded and the pending count goes
    /// down by the number of changes (not below zero).
    pub fn process_incoming_changes(&mut self, changes: Vec<ChangeMessage>, now: i64) -> (r: Vec<
        RealtimeEvent,
    >)
        requires
            old(self).wf(),
        ensures
            final(self).wf(),
            r@.len() == changes@.len(),
            forall|i: int| 0 <= i < r@.len() ==> #[trigger] r@[i] == change_event(changes@[i]),
            final(self).spec_sync_state().last_sync == Some(now),
            final(self).spec_sync_state().pending_changes == (if old(self).spec_sync_state().pending_changes
                >= changes@.len() {
                old(self).spec_sync_state().pending_changes - changes@.len()
            } else {
                0
            }),
            final(self).spec_sync_state().is_syncing == old(self).spec_sync_state().is_syncing,
            final(self).subscription_types() == old(self).subscription_types(),
            final(self).stored() == old(self).stored(),
            final(self).spec_replica_id() == old(self).spec_replica_id(),
    {
        let n = changes.len();
        let ghost all = changes@;
        let mut rest = changes;
        let mut events: Vec<RealtimeEvent> = Vec::new();
        while rest.len() > 0
            invariant
                events@.len() + rest@.len() == all.len(),
                rest@ == all.skip(events@.len() as int),
                forall|i: int| 0 <= i < events@.len() ==> #[trigger] events@[i] == change_event(all[i]),
            decreases rest.len(),
        {
            let ghost k: int = events@.len() as int;
            let c = rest.remove(0);
            assert(c == all[k]);
            assert(rest@ =~= all.skip(k + 1));
            events.push(
                RealtimeEvent::DocumentChanged {
                    key: c.key,
                    replica_id: c.replica_id,
                    timestamp: c.timestamp,
                    change_type: c.change_type,
                },
            );
        }
        self.sync_state.last_sync = Some(now);
        self.sync_state.pending_changes = self.sync_state.pending_changes.saturating_sub(n);
        events
    }

    pub fn get_sync_state(&self) -> (r: SyncState)
        ensures
            r.is_syncing == self.spec_sync_state().is_syncing,
            r.last_sync == self.spec_sync_state().last_sync,
            r.connected_users == self.spec_sync_state().connected_users,
            r.pending_changes == self.spec_sync_state().pending_changes,
            texts(r.sync_errors@) == texts(self.spec_sync_state().sync_errors@),
    {
        let mut errors: Vec<String> = Vec::new();
        let mut i: usize = 0;
        while i < self.sync_state.sync_errors.len()
            invariant
                i <= self.sync_state.sync_errors@.len(),
                errors@.len() == i,
                forall|j: int| 0 <= j < i ==> #[trigger] errors@[j]@ == self.sync_state.sync_errors@[j]@,
            decreases self.sync_state.sync_errors@.len() - i,
        {
            errors.push(self.sync_state.sync_errors[i].clone());
            i = i + 1;
        }
        assert(texts(errors@) =~= texts(self.sync_state.sync_errors@));
        SyncState {
            is_syncing: self.sync_state.is_syncing,
            last_sync: self.sync_state.last_sync,
            connected_users: self.sync_state.connected_users,
            pending_changes: self.sync_state.pending_changes,
            sync_errors: errors,
        }
    }

    /// The users present, in the order they joined.
    pub fn get_active_users(&self) -> (r: Vec<(ReplicaId, UserInfo)>)
        requires
            self.wf(),
        ensures
            r@.len() == self.users().len(),
            forall|i: int| 0 <= i < r@.len() ==> #[trigger] self.users().contains_key(r@[i].0@)
                && self.users()[r@[i].0@] == r@[i].1,
    {
        let mut out: Vec<(ReplicaId, UserInfo)> = Vec::new();
        let n = self.active_users.entry_count();
        let mut i: usize = 0;
        while i < n
            invariant
                self.wf(),
                n == self.active_users.entries().len(),
                i <= n,
                out@.len() == i,
                forall|j: int| 0 <= j < i ==> #[trigger] self.users().contains_key(out@[j].0@)
                    && self.users()[out@[j].0@] == out@[j].1,
            decreases n - i,
        {
            let (k, u) = self.active_users.entry_at(i);
            out.push((*k, u.clone()));
            i = i + 1;
        }
        proof {
            self.active_users.lemma_key_seq_contains(arbitrary());
        }
        out
    }

    /// The presence announcement of this replica.
    pub fn presence_message(&self, now: i64) -> (r: PresenceMessage)
        ensures
            r == (PresenceMessage { replica_id: self.spec_replica_id(), timestamp: now, user_info: None }),
    {
        PresenceMessage { replica_id: self.replica_id, timestamp: now, user_info: None }
    }

    /// The heartbeat of this replica.
    pub fn heartbeat_message(&self, now: i64) -> (r: HeartbeatMessage)
        ensures
            r == (HeartbeatMessage { replica_id: self.spec_replica_id(), timestamp: now }),
    {
        HeartbeatMessage { replica_id: self.replica_id, timestamp: now }
    }

    /// The ids of the subscriptions an event reaches, in the order they were
    /// made: those asking for its type, or for everything.
    pub fn subscribers_for(&self, event: &RealtimeEvent) -> (r: Vec<String>)
        requires
            self.wf(),
        ensures
            texts(r@) == self.subscription_order().filter(
                |k: Seq<char>| wants(self.subscription_types()[k], event_type(*event)),
            ),
    {
        let t = event_type_name(event);
        let n = self.subscriptions.entry_count();
        let ghost order = self.subscription_order();
        let ghost pred = |k: Seq<char>| wants(self.subscription_types()[k], event_type(*event));
        let mut out: Vec<String> = Vec::new();
        let mut i: usize = 0;
        proof {
            self.subscriptions.lemma_key_seq_contains(arbitrary());
        }
        while i < n
            invariant
                self.wf(),
                n == self.subscriptions.entries().len(),
                n == order.len(),
                order == self.subscription_order(),
                t@ == event_type(*event),
                pred == (|k: Seq<char>| wants(self.subscription_types()[k], event_type(*event))),
                forall|j: int| 0 <= j < n ==> #[trigger] order[j] == self.subscriptions.entries()[j].0@,
                i <= n,
                texts(out@) == order.take(i as int).filter(pred),
            decreases n - i,
        {
            let (k, sub) = self.subscriptions.entry_at(i);
            let hit = strings_contain(&sub.event_types, t) || strings_contain(&sub.event_types, "*");
            proof {
                reveal_strlit("*");
                assert(order.take(i + 1) =~= order.take(i as int).push(order[i as int]));
                order.take(i as int).lemma_filter_push(order[i as int], pred);
                assert(self.subscription_types()[order[i as int]] == texts(sub.event_types@));
            }
            if hit {
                let ghost before = out@;
                out.push(k.clone());
                assert(texts(out@) =~= texts(before).push(k@));
            }
            i = i + 1;
        }
        assert(order.take(n as int) =~= order);
        out
    }
}

} // verus!
