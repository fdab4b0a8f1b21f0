use leptos_sync_core::conflict::Mergeable;
use leptos_sync_core::ids::ReplicaId;
use leptos_sync_core::storage::Storage;
use leptos_sync_core::sync::end_to_end::{CollectionMetadata, EndToEndSyncManager, SyncMessage as E2eMessage};
use leptos_sync_core::sync::engine::{PeerSyncStatus, SyncEngine, SyncMessage as EngineMessage, SyncState};
use leptos_sync_core::sync::realtime::{ChangeMessage, ChangeType, RealtimeEvent, RealtimeSyncError, RealtimeSyncManager};
use leptos_sync_core::sync::{SyncError, SyncManager, SyncMessage};
use leptos_sync_core::transport::memory::InMemoryTransport;

#[derive(Clone, Debug, PartialEq)]
struct Counter {
    hits: u64,
}

impl Mergeable for Counter {
    fn spec_has_conflict(&self, other: &Self) -> bool {
        self.has_conflict(other)
    }

    fn spec_merge_error(self, other: Self) -> String {
        let mut merged = self;
        match merged.merge(&other) {
            Ok(()) => String::new(),
            Err(e) => e,
        }
    }

    fn spec_merge(self, other: Self) -> Option<Self> {
        let mut merged = self;
        match merged.merge(&other) {
            Ok(()) => Some(merged),
            Err(_) => None,
        }
    }

    fn merge(&mut self, other: &Self) -> Result<(), String> {
        if other.hits == u64::MAX {
            return Err("overflow".to_string());
        }
        self.hits = self.hits.max(other.hits);
        Ok(())
    }

    fn has_conflict(&self, other: &Self) -> bool {
        self.hits != other.hits
    }
}

fn id(n: u128) -> ReplicaId {
    ReplicaId::from_u128(n)
}

#[test]
fn test_sync_engine_creation() {
    let engine = SyncEngine::with_replica_id(Storage::memory(), InMemoryTransport::new(), id(1));
    assert_eq!(engine.replica_id(), id(1));
    assert_eq!(engine.state(), SyncState::NotSynced);
    assert_eq!(engine.peer_count(), 0);
    assert!(engine.is_online());
}

#[test]
fn start_and_stop_sync() {
    let mut engine = SyncEngine::with_replica_id(Storage::memory(), InMemoryTransport::new(), id(7));
    let presence = engine.start_sync(1000);
    assert!(matches!(presence, EngineMessage::Presence { replica_id, timestamp: 1000 } if replica_id == id(7)));
    assert_eq!(engine.state(), SyncState::Syncing);
    assert!(engine.stop_sync().is_ok());
    assert_eq!(engine.state(), SyncState::NotSynced);
}

#[test]
fn engine_answers_sync_and_tracks_peers() {
    let mut engine = SyncEngine::with_replica_id(Storage::memory(), InMemoryTransport::new(), id(1));
    let replies = engine.process_messages(vec![
        EngineMessage::Presence { replica_id: id(2), timestamp: 10 },
        EngineMessage::Sync { key: "k".to_string(), data: vec![1], replica_id: id(2), timestamp: 11 },
        EngineMessage::Heartbeat { replica_id: id(2), timestamp: 20 },
        EngineMessage::Heartbeat { replica_id: id(3), timestamp: 21 },
        EngineMessage::Ack { key: "k".to_string(), replica_id: id(2) },
    ]);
    assert_eq!(replies.len(), 1);
    assert!(matches!(&replies[0], EngineMessage::Ack { key, replica_id } if key == "k" && *replica_id == id(2)));
    assert_eq!(engine.peer_count(), 1);
    let peers = engine.peers();
    assert_eq!(peers[0].0, id(2));
    assert_eq!(peers[0].1.last_seen, 20);
    assert!(peers[0].1.is_online);
    assert_eq!(peers[0].1.sync_status, PeerSyncStatus::Never);
}

#[test]
fn engine_queues_syncs_and_sends_frames() {
    let mut engine = SyncEngine::with_replica_id(Storage::memory(), InMemoryTransport::new(), id(1));
    let m = engine.sync("doc", vec![4, 5], 77);
    assert!(matches!(m, EngineMessage::Sync { ref key, ref data, timestamp: 77, .. } if key == "doc" && data == &vec![4, 5]));
    engine.send_frame(b"frame").unwrap();
    assert_eq!(engine.receive_frames().unwrap(), vec![b"frame".to_vec()]);
    let mut offline =
        SyncEngine::with_replica_id(Storage::memory(), InMemoryTransport::with_connection_status(false), id(1));
    assert!(offline.send_frame(b"x").is_err());
    assert!(!offline.is_online());
}

#[test]
fn legacy_manager_merges_received_values() {
    let mut manager: SyncManager<InMemoryTransport, Counter> =
        SyncManager::with_replica_id(InMemoryTransport::new(), id(1));
    let announce = manager.sync("a", Counter { hits: 3 });
    assert!(matches!(announce, Some(SyncMessage::Sync { ref key, ref data }) if key == "a" && data.hits == 3));
    let updates = manager
        .process_messages(
            vec![
                SyncMessage::Sync { key: "a".to_string(), data: Counter { hits: 9 } },
                SyncMessage::Sync { key: "b".to_string(), data: Counter { hits: 1 } },
                SyncMessage::Ack { key: "a".to_string() },
                SyncMessage::Presence { replica_id: id(5) },
            ],
            500,
        )
        .unwrap();
    assert_eq!(updates, vec![("a".to_string(), Counter { hits: 9 }), ("b".to_string(), Counter { hits: 1 })]);
    assert_eq!(manager.get("a"), Some(&Counter { hits: 9 }));
    assert_eq!(manager.peer_count(), 1);
    assert_eq!(manager.peers()[0].1.last_seen, 500);
}

#[test]
fn legacy_manager_stops_at_a_refused_merge() {
    let mut manager: SyncManager<InMemoryTransport, Counter> =
        SyncManager::with_replica_id(InMemoryTransport::new(), id(1));
    manager.sync("a", Counter { hits: 3 });
    let r = manager.process_messages(
        vec![
            SyncMessage::Sync { key: "a".to_string(), data: Counter { hits: u64::MAX } },
            SyncMessage::Sync { key: "b".to_string(), data: Counter { hits: 1 } },
        ],
        0,
    );
    assert!(matches!(r, Err(SyncError::CrdtError(ref m)) if m == "overflow"));
    assert_eq!(manager.get("a"), Some(&Counter { hits: 3 }));
    assert_eq!(manager.get("b"), None);
}

#[test]
fn legacy_manager_announces_only_when_online() {
    let online: SyncManager<InMemoryTransport, Counter> = SyncManager::with_replica_id(InMemoryTransport::new(), id(4));
    assert!(matches!(online.announce_presence(), Some(SyncMessage::Presence { replica_id }) if replica_id == id(4)));
    let mut offline: SyncManager<InMemoryTransport, Counter> =
        SyncManager::with_replica_id(InMemoryTransport::with_connection_status(false), id(4));
    assert!(offline.announce_presence().is_none());
    assert!(offline.sync("k", Counter { hits: 1 }).is_none());
    assert_eq!(offline.get("k"), Some(&Counter { hits: 1 }));
}

#[test]
fn test_realtime_sync_manager_creation() {
    let manager = RealtimeSyncManager::new(id(9), InMemoryTransport::new(), Storage::memory());
    assert_eq!(manager.replica_id(), id(9));
}

#[test]
fn test_subscription_management() {
    let mut manager = RealtimeSyncManager::new(id(9), InMemoryTransport::new(), Storage::memory());
    let subscription_id = manager.subscribe(vec!["document_changed".to_string()]).unwrap();
    assert!(manager.unsubscribe(&subscription_id).is_ok());
    assert!(matches!(manager.unsubscribe(&subscription_id), Err(RealtimeSyncError::SubscriptionNotFound(_))));
}

#[test]
fn test_sync_state_management() {
    let manager = RealtimeSyncManager::new(id(9), InMemoryTransport::new(), Storage::memory());
    let state = manager.get_sync_state();
    assert!(!state.is_syncing);
    assert_eq!(state.connected_users, 0);
    assert_eq!(state.pending_changes, 0);
}

#[test]
fn events_reach_the_subscriptions_that_ask_for_them() {
    let mut manager = RealtimeSyncManager::new(id(9), InMemoryTransport::new(), Storage::memory());
    let docs = manager.subscribe(vec!["document_changed".to_string()]).unwrap();
    let all = manager.subscribe(vec!["*".to_string()]).unwrap();
    let _users = manager.subscribe(vec!["user_joined".to_string()]).unwrap();
    let (_presence, started) = manager.start(100);
    assert_eq!(manager.subscribers_for(&started), vec![all.clone()]);
    let (message, event) = manager.broadcast_change("todo-1", vec![1, 2], ChangeType::Updated, 200).unwrap();
    assert_eq!(message.key, "todo-1");
    assert_eq!(message.data, vec![1, 2]);
    assert_eq!(manager.subscribers_for(&event), vec![docs, all]);
    assert!(manager.get_sync_state().is_syncing);
    let (_departure, completed) = manager.stop(300);
    assert!(matches!(completed, RealtimeEvent::SyncCompleted { changes_synced: 0, .. }));
    assert!(!manager.get_sync_state().is_syncing);
}

#[test]
fn incoming_changes_raise_events_and_record_the_sync() {
    let mut manager = RealtimeSyncManager::new(id(9), InMemoryTransport::new(), Storage::memory());
    let changes = vec![
        ChangeMessage { key: "a".to_string(), data: vec![], replica_id: id(2), timestamp: 5, change_type: ChangeType::Created },
        ChangeMessage { key: "b".to_string(), data: vec![], replica_id: id(3), timestamp: 6, change_type: ChangeType::Deleted },
    ];
    let events = manager.process_incoming_changes(changes, 42);
    assert_eq!(events.len(), 2);
    assert!(matches!(&events[1], RealtimeEvent::DocumentChanged { key, change_type: ChangeType::Deleted, .. } if key == "b"));
    let state = manager.get_sync_state();
    assert_eq!(state.last_sync, Some(42));
    assert_eq!(state.pending_changes, 0);
    assert!(manager.get_active_users().is_empty());
}

fn e2e() -> EndToEndSyncManager<InMemoryTransport> {
    EndToEndSyncManager::new(id(1), Storage::memory(), InMemoryTransport::new(), 5000, 30000)
}

fn collection(cid: &str) -> CollectionMetadata {
    CollectionMetadata {
        id: cid.to_string(),
        name: "Test Collection".to_string(),
        crdt_type: "LwwMap".to_string(),
        version: 1,
        last_sync: 0,
        replica_count: 1,
    }
}

#[test]
fn test_end_to_end_sync_manager_creation() {
    let manager = e2e();
    assert!(!manager.is_running());
    assert_eq!(manager.get_sync_state(), SyncState::Disconnected);
}

#[test]
fn test_collection_management() {
    let mut manager = e2e();
    assert!(manager.add_collection(collection("test_collection")).is_ok());
    let retrieved = manager.get_collection("test_collection").unwrap();
    assert!(retrieved.is_some());
    assert_eq!(retrieved.unwrap().id, "test_collection");
    let collections = manager.list_collections().unwrap();
    assert_eq!(collections.len(), 1);
    assert_eq!(collections[0].id, "test_collection");
    assert!(manager.remove_collection("test_collection").is_ok());
    assert_eq!(manager.list_collections().unwrap().len(), 0);
}

#[test]
fn start_and_stop_end_to_end() {
    let mut manager = e2e();
    manager.start().unwrap();
    assert!(manager.is_running());
    assert_eq!(manager.get_sync_state(), SyncState::Connected);
    manager.stop().unwrap();
    assert_eq!(manager.get_sync_state(), SyncState::Disconnected);
}

#[test]
fn requests_and_responses_converge() {
    let mut a = e2e();
    let mut b = EndToEndSyncManager::new(id(2), Storage::memory(), InMemoryTransport::new(), 5000, 30000);
    let reply = a
        .handle_message(
            E2eMessage::SyncRequest { collection_id: "c".to_string(), replica_id: id(2), data: vec![7], timestamp: 0 },
            10_000,
        )
        .unwrap()
        .unwrap();
    assert!(matches!(&reply, E2eMessage::SyncResponse { data, timestamp: 10_000, .. } if data == &vec![7]));
    b.handle_message(reply, 10_001).unwrap();
    // an old request loses to the data kept
    let reply = a
        .handle_message(
            E2eMessage::SyncRequest { collection_id: "c".to_string(), replica_id: id(2), data: vec![8], timestamp: 1 },
            10_002,
        )
        .unwrap()
        .unwrap();
    assert!(matches!(&reply, E2eMessage::SyncResponse { data, .. } if data == &vec![7]));
    // a recent one wins
    let reply = a
        .handle_message(
            E2eMessage::SyncRequest { collection_id: "c".to_string(), replica_id: id(2), data: vec![9], timestamp: 10_500 },
            11_000,
        )
        .unwrap()
        .unwrap();
    assert!(matches!(&reply, E2eMessage::SyncResponse { data, .. } if data == &vec![9]));
}

#[test]
fn presence_decides_who_is_synced_with() {
    let mut a = e2e();
    a.add_collection(collection("c")).unwrap();
    a.handle_message(E2eMessage::SyncResponse { collection_id: "c".to_string(), replica_id: id(2), data: vec![3], timestamp: 0 }, 2000).unwrap();
    a.handle_message(E2eMessage::Presence { replica_id: id(2), status: "connected".to_string(), timestamp: 0 }, 2000).unwrap();
    a.handle_message(E2eMessage::Presence { replica_id: id(3), status: "away".to_string(), timestamp: 0 }, 2000).unwrap();
    a.handle_message(E2eMessage::Presence { replica_id: id(4), status: "connected".to_string(), timestamp: 0 }, 2000).unwrap();
    let requests = a.perform_sync(3000);
    assert_eq!(requests.len(), 2);
    assert!(requests.iter().all(|m| matches!(m, E2eMessage::SyncRequest { collection_id, data, timestamp: 3000, .. } if collection_id == "c" && data == &vec![3])));
    let peer = a.get_peer(&id(3)).unwrap().unwrap();
    assert!(!peer.is_online);
    assert_eq!(peer.sync_status, PeerSyncStatus::Disconnected);
    a.handle_message(E2eMessage::Heartbeat { replica_id: id(3), timestamp: 0 }, 4000).unwrap();
    assert_eq!(a.get_peer(&id(3)).unwrap().unwrap().last_seen, 4000);
    assert_eq!(a.list_peers().unwrap().len(), 3);
    assert!(matches!(a.heartbeat_message(5), E2eMessage::Heartbeat { timestamp: 5, .. }));
}

#[test]
fn handling_in_two_batches_is_handling_in_one() {
    let batch = |n: u128| {
        vec![
            EngineMessage::Presence { replica_id: id(n), timestamp: 1 },
            EngineMessage::Sync { key: format!("k{}", n), data: vec![], replica_id: id(n), timestamp: 2 },
            EngineMessage::Heartbeat { replica_id: id(n), timestamp: 3 },
        ]
    };
    let mut one = SyncEngine::with_replica_id(Storage::memory(), InMemoryTransport::new(), id(1));
    let mut all = batch(2);
    all.extend(batch(3));
    let replies_one = one.process_messages(all);
    let mut two = SyncEngine::with_replica_id(Storage::memory(), InMemoryTransport::new(), id(1));
    let mut replies_two = two.process_messages(batch(2));
    replies_two.extend(two.process_messages(batch(3)));
    let keys = |rs: &Vec<EngineMessage<()>>| {
        rs.iter()
            .map(|r| match r {
                EngineMessage::Ack { key, .. } => key.clone(),
                _ => String::new(),
            })
            .collect::<Vec<_>>()
    };
    assert_eq!(keys(&replies_one), keys(&replies_two));
    assert_eq!(keys(&replies_one), vec!["k2".to_string(), "k3".to_string()]);
    let seen = |e: &SyncEngine<InMemoryTransport>| e.peers().iter().map(|(r, p)| (*r, p.last_seen)).collect::<Vec<_>>();
    assert_eq!(seen(&one), seen(&two));
}

#[test]
fn subscription_ids_are_hyphenated_uuids() {
    let mut manager = RealtimeSyncManager::new(id(9), InMemoryTransport::new(), Storage::memory());
    let a = manager.subscribe(vec!["document_changed".to_string()]).unwrap();
    let b = manager.subscribe(vec!["document_changed".to_string()]).unwrap();
    for s in [&a, &b] {
        assert_eq!(s.len(), 36);
        for i in [8, 13, 18, 23] {
            assert_eq!(s.as_bytes()[i], b'-');
        }
    }
    assert_ne!(a, b);
}

#[test]
fn legacy_manager_frames_go_through_its_transport() {
    let mut manager: SyncManager<InMemoryTransport, Counter> =
        SyncManager::with_replica_id(InMemoryTransport::new(), id(1));
    manager.send_frame(b"one").unwrap();
    manager.send_frame(b"two").unwrap();
    assert_eq!(manager.receive_frames().unwrap(), vec![b"one".to_vec(), b"two".to_vec()]);
    let mut offline: SyncManager<InMemoryTransport, Counter> =
        SyncManager::with_replica_id(InMemoryTransport::with_connection_status(false), id(2));
    match offline.send_frame(b"x") {
        Err(SyncError::SyncFailed(m)) => assert_eq!(m, "Transport error: Not connected"),
        other => panic!("unexpected {:?}", other),
    }
    match offline.receive_frames() {
        Err(SyncError::SyncFailed(m)) => assert_eq!(m, "Transport error: Not connected"),
        other => panic!("unexpected {:?}", other),
    }
}

#[test]
fn end_to_end_frames_go_through_its_transport() {
    let mut manager = EndToEndSyncManager::new(id(1), Storage::memory(), InMemoryTransport::with_connection_status(false), 5000, 30000);
    assert!(manager.send_frame(b"x").is_err());
    let mut online = e2e();
    assert!(online.send_frame(b"x").is_ok());
}
