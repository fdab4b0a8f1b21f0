use leptos_sync_core::ids::ReplicaId;
use leptos_sync_core::protocol::{CrdtType, SyncMessage, Timestamp};
use leptos_sync_core::storage::Storage;
use leptos_sync_core::transport::client::{WebSocketClient, WebSocketClientConfig, WebSocketClientError};
use leptos_sync_core::transport::integration::{
    WebSocketIntegrationConfig, WebSocketIntegrationError, WebSocketSyncEngine, WebSocketSyncEngineBuilder,
};
use leptos_sync_core::transport::websocket::ConnectionState;
use leptos_sync_core::transport::SyncTransport;

fn create_test_replica_id() -> ReplicaId {
    ReplicaId::random()
}

#[test]
fn test_websocket_sync_engine_creation() {
    let replica_id = create_test_replica_id();
    let engine = WebSocketSyncEngine::new(Storage::memory(), WebSocketIntegrationConfig::default(), replica_id);
    assert!(!engine.is_running());
    assert!(!engine.is_connected());
    assert_eq!(engine.websocket_client().replica_id(), replica_id);
}

#[test]
fn test_websocket_sync_engine_builder() {
    let replica_id = create_test_replica_id();
    let engine = WebSocketSyncEngineBuilder::new()
        .with_replica_id(replica_id)
        .with_url("ws://localhost:3001/test".to_string())
        .build(Storage::memory());
    assert_eq!(engine.websocket_client().config().url, "ws://localhost:3001/test");
    assert_eq!(engine.websocket_client().replica_id(), replica_id);
}

#[test]
fn start_connects_and_stop_disconnects() {
    let mut engine = WebSocketSyncEngine::new(Storage::memory(), WebSocketIntegrationConfig::default(), create_test_replica_id());
    let report = engine.start();
    assert!(report.result.is_ok());
    assert_eq!(report.waits_ms, vec![100]);
    assert!(engine.is_running());
    assert!(engine.is_connected());
    assert!(engine.send_frame(b"frame").is_ok());
    assert!(engine.stop().is_ok());
    assert!(!engine.is_running());
    assert_eq!(engine.websocket_client().connection_state(), ConnectionState::Disconnected);
    assert!(matches!(
        engine.send_frame(b"frame"),
        Err(WebSocketIntegrationError::WebSocketClient(WebSocketClientError::NotConnected))
    ));
}

#[test]
fn start_without_attempts_fails() {
    let mut config = WebSocketIntegrationConfig::default();
    config.client_config.reconnect_attempts = 0;
    let mut engine = WebSocketSyncEngine::new(Storage::memory(), config, create_test_replica_id());
    let report = engine.start();
    assert!(matches!(
        report.result,
        Err(WebSocketIntegrationError::WebSocketClient(WebSocketClientError::ConnectionFailed(ref m))) if m == "Max retry attempts exceeded"
    ));
    assert!(!engine.is_running());
}

#[test]
fn deltas_are_stamped_by_this_replica() {
    let replica_id = ReplicaId::from_u128(77);
    let engine = WebSocketSyncEngine::new(Storage::memory(), WebSocketIntegrationConfig::default(), replica_id);
    let now = Timestamp { secs: 5, nanos: 6 };
    let m = engine.send_delta("c".to_string(), CrdtType::GCounter, vec![1, 2], now);
    assert_eq!(
        m,
        SyncMessage::Delta { collection_id: "c".to_string(), crdt_type: CrdtType::GCounter, delta: vec![1, 2], timestamp: now, replica_id }
    );
    let mut buffer = vec![("a".to_string(), CrdtType::LwwMap, vec![1]), ("b".to_string(), CrdtType::Tree, vec![2])];
    let batch = engine.delta_batch(&mut buffer, now);
    assert!(buffer.is_empty());
    assert_eq!(batch.len(), 2);
    assert!(matches!(&batch[1], SyncMessage::Delta { collection_id, .. } if collection_id == "b"));
    assert!(engine.handle_incoming_message(m).is_ok());
}

#[test]
fn client_config_defaults() {
    let config = WebSocketClientConfig::default();
    assert_eq!(config.url, "ws://localhost:3001/sync");
    assert_eq!(config.reconnect_attempts, 5);
    let mut client = WebSocketClient::new(config, ReplicaId::from_u128(3));
    client.deliver(vec![1]);
    assert_eq!(client.next_frame(), Some(vec![1]));
    assert_eq!(client.next_frame(), None);
}

#[test]
fn websocket_client_test_websocket_client_creation() {
    let replica_id = create_test_replica_id();
    let client = WebSocketClient::new(WebSocketClientConfig::default(), replica_id);
    assert_eq!(client.replica_id(), replica_id);
    assert_eq!(client.connection_state(), ConnectionState::Disconnected);
}

#[test]
fn test_websocket_client_with_url() {
    let replica_id = create_test_replica_id();
    let client = WebSocketClient::with_url("ws://test.example.com".to_string(), replica_id);
    assert_eq!(client.config().url, "ws://test.example.com");
    assert_eq!(client.replica_id(), replica_id);
}

#[test]
fn test_connection_state_transitions() {
    let mut client = WebSocketClient::new(WebSocketClientConfig::default(), create_test_replica_id());
    assert_eq!(client.connection_state(), ConnectionState::Disconnected);
    assert!(client.connect().result.is_ok());
    assert_eq!(client.connection_state(), ConnectionState::Connected);
    assert!(client.disconnect().is_ok());
    assert_eq!(client.connection_state(), ConnectionState::Disconnected);
}

#[test]
fn test_sync_transport_implementation() {
    let mut client = WebSocketClient::new(WebSocketClientConfig::default(), create_test_replica_id());
    assert!(client.send(b"test data").is_ok());
    assert!(client.receive().is_ok());
}

#[test]
fn client_raw_sends_need_a_connection_and_frames_come_back_in_order() {
    let mut client = WebSocketClient::new(WebSocketClientConfig::default(), create_test_replica_id());
    assert!(matches!(client.send_raw(b"x"), Err(WebSocketClientError::NotConnected)));
    client.connect();
    assert!(client.send_raw(b"x").is_ok());
    client.deliver(b"first".to_vec());
    client.deliver(b"second".to_vec());
    assert_eq!(client.receive().unwrap(), vec![b"first".to_vec()]);
    assert_eq!(client.next_frame(), Some(b"second".to_vec()));
    assert!(client.receive().unwrap().is_empty());
}

#[test]
fn websocket_integration_test_send_delta() {
    let replica_id = create_test_replica_id();
    let engine = WebSocketSyncEngine::new(Storage::memory(), WebSocketIntegrationConfig::default(), replica_id);
    let now = Timestamp { secs: 100, nanos: 0 };
    let message = engine.send_delta("test_collection".to_string(), CrdtType::LwwRegister, b"test delta".to_vec(), now);
    match message {
        SyncMessage::Delta { collection_id, crdt_type, delta, timestamp, replica_id: from } => {
            assert_eq!(collection_id, "test_collection");
            assert_eq!(crdt_type, CrdtType::LwwRegister);
            assert_eq!(delta, b"test delta".to_vec());
            assert_eq!(timestamp, now);
            assert_eq!(from, replica_id);
        }
        _ => panic!("expected a delta message"),
    }
}

#[test]
fn test_start_stop_cycle() {
    let mut engine = WebSocketSyncEngine::new(Storage::memory(), WebSocketIntegrationConfig::default(), create_test_replica_id());
    assert!(!engine.is_running());
    assert!(engine.start().result.is_ok());
    assert!(engine.is_running());
    assert!(engine.stop().is_ok());
    assert!(!engine.is_running());
}

#[test]
fn websocket_integration_test_websocket_sync_engine_builder() {
    let replica_id = create_test_replica_id();
    let engine = WebSocketSyncEngineBuilder::new()
        .with_replica_id(replica_id)
        .with_url("ws://test.example.com".to_string())
        .build(Storage::memory());
    assert_eq!(engine.websocket_client().replica_id(), replica_id);
    assert_eq!(engine.websocket_client().config().url, "ws://test.example.com");
}

#[test]
fn websocket_integration_tests_test_websocket_sync_engine_builder() {
    let replica_id = create_test_replica_id();
    let engine = WebSocketSyncEngineBuilder::new()
        .with_replica_id(replica_id)
        .with_url("ws://test.example.com:8080".to_string())
        .build(Storage::memory());
    assert_eq!(engine.websocket_client().replica_id(), replica_id);
}

#[test]
fn test_websocket_sync_engine_lifecycle() {
    let replica_id = create_test_replica_id();
    let mut engine = WebSocketSyncEngine::new(Storage::memory(), WebSocketIntegrationConfig::default(), replica_id);
    assert_eq!(engine.websocket_client().replica_id(), replica_id);
    assert!(!engine.is_running());
    assert!(engine.start().result.is_ok());
    assert!(engine.is_running());
    assert!(engine.stop().is_ok());
    assert!(!engine.is_running());
}

#[test]
fn websocket_integration_tests_test_send_delta() {
    let mut engine = WebSocketSyncEngine::new(Storage::memory(), WebSocketIntegrationConfig::default(), create_test_replica_id());
    engine.start().result.unwrap();
    let message = engine.send_delta(
        "test_collection".to_string(),
        CrdtType::LwwRegister,
        b"test delta data".to_vec(),
        Timestamp { secs: 1, nanos: 0 },
    );
    assert!(matches!(message, SyncMessage::Delta { .. }));
    assert!(engine.stop().is_ok());
}

#[test]
fn test_websocket_client_basic_operations() {
    let replica_id = create_test_replica_id();
    let mut client = WebSocketClient::new(WebSocketClientConfig::default(), replica_id);
    assert_eq!(client.replica_id(), replica_id);
    assert_eq!(client.connection_state(), ConnectionState::Disconnected);
    assert!(client.connect().result.is_ok());
    assert_eq!(client.connection_state(), ConnectionState::Connected);
    assert!(client.disconnect().is_ok());
    assert_eq!(client.connection_state(), ConnectionState::Disconnected);
}

#[test]
fn random_replica_ids_are_version_4_uuids() {
    for _ in 0..8 {
        let id = ReplicaId::random().0;
        assert_eq!((id >> 76) & 0xf, 4);
        assert_eq!((id >> 62) & 3, 2);
    }
    assert_ne!(ReplicaId::random(), ReplicaId::random());
}

#[test]
fn a_cloned_client_starts_disconnected_and_empty() {
    let replica_id = create_test_replica_id();
    let mut client = WebSocketClient::new(WebSocketClientConfig::default(), replica_id);
    client.connect();
    client.deliver(b"frame".to_vec());
    let mut copy = client.clone();
    assert_eq!(copy.replica_id(), replica_id);
    assert_eq!(copy.config().url, client.config().url);
    assert_eq!(copy.connection_state(), ConnectionState::Disconnected);
    assert_eq!(copy.next_frame(), None);
    assert_eq!(client.connection_state(), ConnectionState::Connected);
}
