use leptos_sync_core::ids::ReplicaId;
use leptos_sync_core::protocol::{CrdtType, PresenceAction, SyncMessage, Timestamp, UserInfo};
use leptos_sync_core::relay::{accepts_connection, relay_action, within_size_limit, RelayAction, RelayStats, relay_text_frame};
use leptos_sync_core::server::{Recipients, WebSocketServer, WebSocketServerConfig, WebSocketServerError};

fn create_test_replica_id() -> ReplicaId {
    ReplicaId::random()
}

fn at(secs: u64) -> Timestamp {
    Timestamp { secs, nanos: 0 }
}

#[test]
fn test_server_creation() {
    let server = WebSocketServer::new(WebSocketServerConfig::default());
    let stats = server.get_stats(at(10));
    assert_eq!(stats.connected_clients, 0);
    assert_eq!(stats.total_rooms, 0);
}

#[test]
fn test_client_connection() {
    let mut server = WebSocketServer::new(WebSocketServerConfig::default());
    let replica_id = create_test_replica_id();
    let user_info = UserInfo {
        user_id: "user123".to_string(),
        username: Some("testuser".to_string()),
        display_name: Some("Test User".to_string()),
        avatar_url: None,
    };
    let result = server.handle_client_connection(replica_id, Some(user_info), at(1));
    assert!(result.is_ok());
    let out = result.unwrap();
    assert!(matches!(out[0].to, Recipients::Client(r) if r == replica_id));
    assert!(matches!(&out[0].message, SyncMessage::Welcome { server_info: Some(info), .. } if info.version == "1.0.0"));
    assert!(matches!(out[1].message, SyncMessage::PeerJoin { .. }));
    assert_eq!(server.get_stats(at(2)).connected_clients, 1);
}

#[test]
fn test_client_disconnection() {
    let mut server = WebSocketServer::new(WebSocketServerConfig::default());
    let replica_id = create_test_replica_id();
    server.handle_client_connection(replica_id, None, at(1)).unwrap();
    assert_eq!(server.get_stats(at(1)).connected_clients, 1);
    let result = server.handle_client_disconnection(replica_id);
    assert!(result.is_ok());
    assert!(matches!(result.unwrap()[0].message, SyncMessage::PeerLeave { replica_id: r } if r == replica_id));
    assert_eq!(server.get_stats(at(1)).connected_clients, 0);
}

#[test]
fn test_heartbeat_message() {
    let mut server = WebSocketServer::new(WebSocketServerConfig::default());
    let replica_id = create_test_replica_id();
    server.handle_client_connection(replica_id, None, at(1)).unwrap();
    let heartbeat = SyncMessage::Heartbeat { replica_id, timestamp: at(5) };
    let result = server.handle_client_message(replica_id, heartbeat, at(5));
    assert!(result.is_ok());
    assert!(result.unwrap().is_empty());
    assert_eq!(server.get_stats(at(6)).total_messages, 1);
}

#[test]
fn test_connection_limit() {
    let config = WebSocketServerConfig { max_connections: Some(1), ..Default::default() };
    let mut server = WebSocketServer::new(config);
    let result1 = server.handle_client_connection(create_test_replica_id(), None, at(1));
    assert!(result1.is_ok());
    let result2 = server.handle_client_connection(create_test_replica_id(), None, at(1));
    assert!(matches!(result2, Err(WebSocketServerError::ConnectionError(ref m)) if m == "Server at maximum capacity"));
}

#[test]
fn messages_are_relayed_by_kind() {
    let mut server = WebSocketServer::new(WebSocketServerConfig::default());
    let a = ReplicaId::from_u128(1);
    server.handle_client_connection(a, None, at(1)).unwrap();
    let delta = SyncMessage::Delta {
        collection_id: "c".to_string(),
        crdt_type: CrdtType::LwwMap,
        delta: vec![1],
        timestamp: at(2),
        replica_id: a,
    };
    let out = server.handle_client_message(a, delta.clone(), at(2)).unwrap();
    assert!(matches!(out[0].to, Recipients::All));
    assert_eq!(out[0].message, delta);
    let out = server
        .handle_client_message(a, SyncMessage::Presence { peer_id: ReplicaId::from_u128(99), action: PresenceAction::Update, timestamp: at(0) }, at(3))
        .unwrap();
    assert_eq!(out[0].message, SyncMessage::Presence { peer_id: a, action: PresenceAction::Update, timestamp: at(3) });
    let leave = SyncMessage::PeerLeave { replica_id: a };
    let out = server.handle_client_message(a, leave.clone(), at(4)).unwrap();
    assert_eq!(out[0].message, leave);
    assert_eq!(server.get_stats(at(5)).total_messages, 3);
}

#[test]
fn silent_clients_are_dropped() {
    let mut server = WebSocketServer::new(WebSocketServerConfig::default());
    let a = ReplicaId::from_u128(1);
    let b = ReplicaId::from_u128(2);
    server.handle_client_connection(a, None, at(0)).unwrap();
    server.handle_client_connection(b, None, at(50)).unwrap();
    let out = server.remove_stale_clients(at(100));
    assert_eq!(out.len(), 1);
    assert!(matches!(out[0].message, SyncMessage::PeerLeave { replica_id } if replica_id == a));
    assert_eq!(server.get_stats(at(100)).connected_clients, 1);
    server.cleanup_rooms();
    let out = server.stop().unwrap();
    assert_eq!(out.len(), 1);
    assert_eq!(server.get_stats(at(100)).connected_clients, 0);
}

#[test]
fn relay_rules() {
    assert!(accepts_connection(999));
    assert!(!accepts_connection(1000));
    assert!(within_size_limit(1_048_576));
    assert!(!within_size_limit(1_048_577));
    assert_eq!(relay_action(Some("sync")), RelayAction::RelaySync);
    assert_eq!(relay_action(Some("heartbeat")), RelayAction::Heartbeat);
    assert_eq!(relay_action(Some("presence")), RelayAction::RelayPresence);
    assert_eq!(relay_action(Some("other")), RelayAction::Unknown);
    assert_eq!(relay_action(None), RelayAction::Unknown);
    let mut stats = RelayStats::new();
    stats.connected(1);
    stats.connected(2);
    stats.relayed();
    stats.disconnected(1);
    assert_eq!(stats, RelayStats { total_connections: 2, active_connections: 1, total_messages: 1 });
}

#[test]
fn relay_rebuilds_sync_and_presence_text_frames() {
    let mut stats = RelayStats::new();
    let ts = "2024-01-01T00:00:00+00:00";
    let out = relay_text_frame("peer-1", br#"{"type":"sync","data":{"k":1}}"#, ts, &mut stats).unwrap();
    assert_eq!(out, br#"{"data":{"k":1},"peer_id":"peer-1","timestamp":"2024-01-01T00:00:00+00:00","type":"sync"}"#.to_vec());
    assert_eq!(stats.total_messages, 1);
    let out = relay_text_frame("peer-1", br#"{"type":"sync"}"#, ts, &mut stats).unwrap();
    assert_eq!(out, br#"{"data":null,"peer_id":"peer-1","timestamp":"2024-01-01T00:00:00+00:00","type":"sync"}"#.to_vec());
    assert_eq!(stats.total_messages, 2);
    let out = relay_text_frame("peer-2", br#"{"type":"presence","action":"join"}"#, ts, &mut stats).unwrap();
    assert_eq!(out, br#"{"action":"join","peer_id":"peer-2","timestamp":"2024-01-01T00:00:00+00:00","type":"presence"}"#.to_vec());
    assert_eq!(stats.total_messages, 2);
    assert_eq!(relay_text_frame("peer-1", br#"{"type":"heartbeat"}"#, ts, &mut stats), None);
    assert_eq!(relay_text_frame("peer-1", br#"{"type":"other"}"#, ts, &mut stats), None);
    assert_eq!(relay_text_frame("peer-1", b"not json", ts, &mut stats), None);
    let big = vec![b' '; 1_048_577];
    assert_eq!(relay_text_frame("peer-1", &big, ts, &mut stats), None);
    assert_eq!(stats.total_messages, 2);
}
