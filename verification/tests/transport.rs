use leptos_sync_core::transport::compatibility::{CompatibilityTransport, MigrationHelper, OutgoingRoute, WireFields};
use leptos_sync_core::transport::hybrid::HybridTransport;
use leptos_sync_core::transport::leptos_ws_pro::{LeptosWsProConfig, LeptosWsProError, LeptosWsProTransport};
use leptos_sync_core::transport::memory::InMemoryTransport;
use leptos_sync_core::transport::multi::{MultiTransport, MultiTransportConfig, TransportEnum, TransportType};
use leptos_sync_core::transport::websocket::{ConnectionState, WebSocketConfig, WebSocketError, WebSocketTransport};
use leptos_sync_core::transport::{SyncTransport, TransportError, TransportFactory};

#[test]
fn test_in_memory_transport() {
    let mut transport = InMemoryTransport::new();
    let data = b"test message";
    assert!(transport.send(data).is_ok());
    let received = transport.receive().unwrap();
    assert_eq!(received.len(), 1);
    assert_eq!(received[0], data);
}

#[test]
fn in_memory_transport_hands_back_in_send_order() {
    let mut transport = InMemoryTransport::new();
    assert!(transport.is_connected());
    transport.send(b"one").unwrap();
    transport.send(b"two").unwrap();
    transport.send(b"three").unwrap();
    let received = transport.receive().unwrap();
    assert_eq!(received, vec![b"one".to_vec(), b"two".to_vec(), b"three".to_vec()]);
    assert!(transport.receive().unwrap().is_empty());
}

#[test]
fn disconnected_in_memory_transport_refuses() {
    let mut transport = InMemoryTransport::with_connection_status(false);
    assert!(matches!(transport.send_data(b"x"), Err(TransportError::NotConnected)));
    assert!(matches!(transport.receive_data(), Err(TransportError::NotConnected)));
}

#[test]
fn transport_error_messages() {
    assert_eq!(TransportError::ConnectionFailed("a".to_string()).message(), "Connection failed: a");
    assert_eq!(TransportError::SendFailed("b".to_string()).message(), "Send failed: b");
    assert_eq!(TransportError::ReceiveFailed("c".to_string()).message(), "Receive failed: c");
    assert_eq!(TransportError::SerializationFailed("d".to_string()).message(), "Serialization failed: d");
    assert_eq!(TransportError::NotConnected.message(), "Not connected");
}

#[test]
fn websocket_connect_retries_then_fails_without_backend() {
    let config = WebSocketConfig {
        auto_reconnect: true,
        max_reconnect_attempts: 3,
        reconnect_delay_ms: 250,
        heartbeat_interval_ms: 30_000,
        connection_timeout_ms: 10_000,
    };
    let mut ws = WebSocketTransport::with_config("ws://localhost:8080".to_string(), config);
    let report = ws.connect();
    assert!(matches!(report.result, Err(WebSocketError::ConnectionFailed(ref m)) if m == "WebSocket feature not enabled"));
    assert_eq!(report.waits_ms, vec![250, 250]);
    assert_eq!(ws.connection_state(), ConnectionState::Failed);
    assert!(!ws.is_connected_sync());
    assert!(ws.send_binary(b"x").is_err());
}

#[test]
fn websocket_with_no_attempts_reports_exhaustion() {
    let mut ws = WebSocketTransport::with_reconnect_config("ws://h".to_string(), 0, 10);
    let report = ws.connect();
    assert!(matches!(report.result, Err(WebSocketError::ConnectionFailed(ref m)) if m == "Max reconnection attempts exceeded"));
    assert!(report.waits_ms.is_empty());
}

#[test]
fn websocket_queue_hands_back_incoming_in_order() {
    let mut ws = WebSocketTransport::new("ws://h".to_string());
    ws.push_incoming(vec![1]);
    ws.push_incoming(vec![2]);
    assert_eq!(ws.drain_queue(), vec![vec![1], vec![2]]);
    assert!(ws.drain_queue().is_empty());
    assert_eq!(ws.url(), "ws://h");
}

#[test]
fn leptos_ws_pro_connects_and_echoes() {
    let mut t = LeptosWsProTransport::with_url("ws://localhost:8080".to_string());
    let report = t.connect();
    assert!(report.result.is_ok());
    assert_eq!(report.waits_ms, vec![100]);
    assert!(t.is_connected_sync());
    t.send_message(b"hello").unwrap();
    assert_eq!(t.receive_messages().unwrap(), vec![b"hello".to_vec()]);
    t.disconnect().unwrap();
    assert!(!t.is_connected_sync());
}

#[test]
fn leptos_ws_pro_refused_server_retries_then_fails() {
    let mut config = LeptosWsProConfig::with_url("ws://invalid-host:9999".to_string());
    config.max_reconnect_attempts = 2;
    config.retry_delay_ms = 50;
    let mut t = LeptosWsProTransport::new(config);
    let report = t.connect();
    assert!(matches!(report.result, Err(LeptosWsProError::ConnectionFailed(ref m)) if m == "Connection refused"));
    assert_eq!(report.waits_ms, vec![100, 50, 100]);
    assert_eq!(t.connection_state(), ConnectionState::Failed);
}

#[test]
fn compatibility_routes_outgoing_messages() {
    let fields = |t: &str, peer: Option<&str>, action: Option<&str>, data: bool| {
        Some(WireFields {
            message_type: Some(t.to_string()),
            peer_id: peer.map(|p| p.to_string()),
            action: action.map(|a| a.to_string()),
            has_data: data,
        })
    };
    assert_eq!(
        CompatibilityTransport::route_outgoing(fields("sync", Some("p1"), None, true)),
        OutgoingRoute::Sync { peer_id: "p1".to_string() }
    );
    assert_eq!(
        CompatibilityTransport::route_outgoing(fields("presence", Some("p1"), Some("join"), false)),
        OutgoingRoute::Presence { peer_id: "p1".to_string(), action: "join".to_string() }
    );
    assert_eq!(CompatibilityTransport::route_outgoing(fields("heartbeat", None, None, false)), OutgoingRoute::Heartbeat);
    assert_eq!(CompatibilityTransport::route_outgoing(fields("sync", None, None, true)), OutgoingRoute::Raw);
    assert_eq!(CompatibilityTransport::route_outgoing(None), OutgoingRoute::Raw);
}

#[test]
fn compatibility_routes_outgoing_bytes_by_their_json() {
    assert_eq!(
        CompatibilityTransport::outgoing_route(br#"{"type":"sync","peer_id":"p1","data":{"k":1}}"#),
        OutgoingRoute::Sync { peer_id: "p1".to_string() }
    );
    assert_eq!(
        CompatibilityTransport::outgoing_route(br#"{"type":"presence","peer_id":"p2","action":"leave"}"#),
        OutgoingRoute::Presence { peer_id: "p2".to_string(), action: "leave".to_string() }
    );
    assert_eq!(CompatibilityTransport::outgoing_route(br#"{"type":"heartbeat"}"#), OutgoingRoute::Heartbeat);
    assert_eq!(CompatibilityTransport::outgoing_route(br#"{"type":"sync","peer_id":"p1"}"#), OutgoingRoute::Raw);
    assert_eq!(CompatibilityTransport::outgoing_route(b"not json"), OutgoingRoute::Raw);
    assert_eq!(CompatibilityTransport::outgoing_route(b"[1,2]"), OutgoingRoute::Raw);
}

#[test]
fn multi_transport_switches_only_to_registered() {
    let mut multi = MultiTransport::new(MultiTransportConfig::default());
    multi.register_transport(TransportType::Memory, TransportEnum::InMemory(InMemoryTransport::new()));
    assert!(multi.has_transport(&TransportType::Memory));
    assert!(multi.switch_transport(TransportType::WebRTC).is_err());
    assert!(multi.switch_transport(TransportType::Memory).is_ok());
    assert_eq!(multi.current_transport(), TransportType::Memory);
    multi.send_data(b"m").unwrap();
    assert_eq!(multi.receive_data().unwrap(), vec![b"m".to_vec()]);
    assert_eq!(multi.transport_count(), 1);
    assert_eq!(TransportType::Memory.label(), "Memory");
}

#[test]
fn hybrid_falls_back_to_the_working_transport() {
    let mut hybrid = HybridTransport::with_fallback(
        HybridTransport::with_websocket("ws://h".to_string()),
        HybridTransport::with_in_memory(),
    );
    let report = hybrid.connect();
    assert!(report.result.is_ok());
    assert!(hybrid.is_connected_now());
    // the primary refuses the send, so it goes to the fallback; receiving
    // asks the primary first, which answers with nothing
    hybrid.send_data(b"z").unwrap();
    assert_eq!(hybrid.receive_data().unwrap(), Vec::<Vec<u8>>::new());
}

#[test]
fn factory_builds_each_kind() {
    assert!(TransportFactory::in_memory().is_connected());
    assert_eq!(TransportFactory::websocket("ws://a".to_string()).url(), "ws://a");
    let mut h = TransportFactory::hybrid("ws://a".to_string());
    assert!(h.connect().result.is_ok());
}

#[test]
fn test_multi_transport_creation() {
    let multi_transport = MultiTransport::new(MultiTransportConfig::default());
    assert_eq!(multi_transport.current_transport(), TransportType::WebSocket);
    assert!(multi_transport.available_transports().is_empty());
}

#[test]
fn test_register_and_switch_transports() {
    let config = MultiTransportConfig {
        primary: TransportType::WebSocket,
        fallbacks: vec![TransportType::Memory],
        auto_switch: true,
        timeout_ms: 5000,
    };
    let mut multi_transport = MultiTransport::new(config);
    let ws_transport = TransportEnum::WebSocket(WebSocketTransport::new("ws://test".to_string()));
    let memory_transport = TransportEnum::InMemory(InMemoryTransport::new());
    multi_transport.register_transport(TransportType::WebSocket, ws_transport);
    multi_transport.register_transport(TransportType::Memory, memory_transport);
    let available = multi_transport.available_transports();
    assert_eq!(available.len(), 2);
    assert!(available.contains(&TransportType::WebSocket));
    assert!(available.contains(&TransportType::Memory));
    multi_transport.switch_transport(TransportType::Memory).unwrap();
    assert_eq!(multi_transport.current_transport(), TransportType::Memory);
}

#[test]
fn test_transport_operations() {
    let mut multi_transport = MultiTransport::new(MultiTransportConfig::default());
    multi_transport.register_transport(TransportType::WebSocket, TransportEnum::InMemory(InMemoryTransport::new()));
    multi_transport.send_data(b"test data").unwrap();
    let data = multi_transport.receive_data().unwrap();
    assert_eq!(data.len(), 1);
    assert_eq!(data[0], b"test data");
}

#[test]
fn test_transport_failure_handling() {
    let config = MultiTransportConfig {
        primary: TransportType::WebSocket,
        fallbacks: vec![TransportType::Memory],
        auto_switch: true,
        timeout_ms: 5000,
    };
    let mut multi_transport = MultiTransport::new(config);
    let failing_transport = TransportEnum::WebSocket(WebSocketTransport::new("ws://invalid-url".to_string()));
    multi_transport.register_transport(TransportType::WebSocket, failing_transport);
    assert!(!multi_transport.is_connected_now());
    multi_transport.register_transport(TransportType::Memory, TransportEnum::InMemory(InMemoryTransport::new()));
    multi_transport.switch_transport(TransportType::Memory).unwrap();
    assert!(multi_transport.is_connected_now());
    assert!(multi_transport.send_data(b"test").is_ok());
    assert!(multi_transport.receive_data().is_ok());
}

#[test]
fn test_switch_to_unregistered_transport() {
    let mut multi_transport = MultiTransport::new(MultiTransportConfig::default());
    assert!(multi_transport.switch_transport(TransportType::WebRTC).is_err());
}

#[test]
fn test_operations_without_registered_transport() {
    let mut multi_transport = MultiTransport::new(MultiTransportConfig::default());
    assert!(multi_transport.send_data(b"test").is_err());
    assert!(multi_transport.receive_data().is_err());
    assert!(!multi_transport.is_connected_now());
}

#[test]
fn test_multi_transport_utility_methods() {
    let mut multi_transport = MultiTransport::new(MultiTransportConfig::default());
    assert_eq!(multi_transport.transport_count(), 0);
    assert!(!multi_transport.has_transport(&TransportType::WebSocket));
    multi_transport.register_transport(TransportType::WebSocket, TransportEnum::InMemory(InMemoryTransport::new()));
    assert_eq!(multi_transport.transport_count(), 1);
    assert!(multi_transport.has_transport(&TransportType::WebSocket));
    assert!(!multi_transport.has_transport(&TransportType::Memory));
    let config = multi_transport.config();
    assert_eq!(config.primary, TransportType::WebSocket);
    assert!(config.auto_switch);
}

#[test]
fn test_websocket_transport_creation() {
    let transport = WebSocketTransport::new("ws://localhost:8080".to_string());
    assert_eq!(transport.url(), "ws://localhost:8080");
    assert!(!transport.is_connected());
}

#[test]
fn test_websocket_config_default() {
    let config = WebSocketConfig::default();
    assert!(config.auto_reconnect);
    assert_eq!(config.max_reconnect_attempts, 5);
    assert_eq!(config.reconnect_delay_ms, 1000);
}

#[test]
fn test_websocket_with_reconnect_config() {
    let transport = WebSocketTransport::with_reconnect_config("ws://localhost:8080".to_string(), 10, 2000);
    assert_eq!(transport.url(), "ws://localhost:8080");
    assert_eq!(transport.config().max_reconnect_attempts, 10);
    assert_eq!(transport.config().reconnect_delay_ms, 2000);
}

#[test]
fn test_websocket_transport_operations() {
    let mut transport = WebSocketTransport::new("ws://localhost:8080".to_string());
    assert!(!transport.is_connected());
    assert_eq!(transport.connection_state(), ConnectionState::Disconnected);
    assert!(transport.disconnect().is_ok());
    assert!(transport.send_binary(b"test data").is_err());
    assert!(transport.send_text("test message").is_err());
    assert!(transport.send(b"test").is_err());
    let received = transport.receive().unwrap();
    assert_eq!(received.len(), 0);
    assert!(!transport.is_connected());
}

#[test]
fn test_websocket_connection_state() {
    let transport = WebSocketTransport::new("ws://localhost:8080".to_string());
    assert_eq!(transport.connection_state(), ConnectionState::Disconnected);
    let mut invalid_transport = WebSocketTransport::new("ws://invalid:9999".to_string());
    let report = invalid_transport.connect();
    assert!(report.result.is_err());
    assert_eq!(invalid_transport.connection_state(), ConnectionState::Failed);
}

#[test]
fn test_websocket_config_custom() {
    let config = WebSocketConfig {
        auto_reconnect: false,
        max_reconnect_attempts: 3,
        reconnect_delay_ms: 500,
        heartbeat_interval_ms: 60_000,
        connection_timeout_ms: 5_000,
    };
    let transport = WebSocketTransport::with_config("ws://localhost:8080".to_string(), config);
    assert_eq!(transport.url(), "ws://localhost:8080");
    assert_eq!(transport.config(), config);
}

#[test]
fn test_transport_creation() {
    let transport = LeptosWsProTransport::new(LeptosWsProConfig::default());
    assert!(!transport.is_connected());
    assert_eq!(transport.url(), "ws://localhost:8080");
}

#[test]
fn test_connection_state() {
    let transport = LeptosWsProTransport::new(LeptosWsProConfig::default());
    assert_eq!(transport.connection_state(), ConnectionState::Disconnected);
}

#[test]
fn test_compatibility_transport_creation() {
    let transport = CompatibilityTransport::new(LeptosWsProConfig::default());
    assert!(!transport.is_connected());
}

#[test]
fn test_migration_helper() {
    let config = LeptosWsProConfig {
        url: "ws://invalid-url-that-does-not-exist:9999".to_string(),
        ..LeptosWsProConfig::default()
    };
    let mut helper = MigrationHelper::new(config);
    assert!(!helper.is_migration_complete());
    assert!(helper.migrate().result.is_err());
    assert!(!helper.is_migration_complete());
}

#[test]
fn compatibility_layer_test_sync_transport_trait_compliance() {
    let mut transport = CompatibilityTransport::new(LeptosWsProConfig::default());
    assert!(!transport.is_connected());
    assert!(transport.send(b"trait compliance test").is_err());
    assert!(transport.receive().is_ok());
}

#[test]
fn migration_to_a_reachable_server_completes() {
    let mut helper = MigrationHelper::new(LeptosWsProConfig::default());
    assert!(helper.migrate().result.is_ok());
    assert!(helper.is_migration_complete());
    assert!(helper.new_transport().is_connected());
}

#[test]
fn test_hybrid_transport_fallback() {
    let primary = HybridTransport::with_websocket("ws://invalid-url".to_string());
    let fallback = HybridTransport::with_in_memory();
    let mut transport = HybridTransport::with_fallback(primary, fallback);
    assert!(transport.is_connected_now());
    let data = b"test message";
    match &mut transport {
        HybridTransport::Fallback { fallback, .. } => {
            assert!(fallback.send(data).is_ok());
            let received = fallback.receive().unwrap();
            assert_eq!(received.len(), 1);
            assert_eq!(received[0], data);
        }
        _ => panic!("expected a fallback pair"),
    }
}

fn hybrid_test_message(id: &str, content: &str, transport_type: &str) -> Vec<u8> {
    format!(
        r#"{{"id":"{}","content":"{}","transport_type":"{}","timestamp":1700000000}}"#,
        id, content, transport_type
    )
    .into_bytes()
}

fn leptos_primary_with_memory_fallback(config: LeptosWsProConfig) -> HybridTransport {
    HybridTransport::with_fallback(
        HybridTransport::LeptosWsPro(LeptosWsProTransport::new(config)),
        HybridTransport::InMemory(InMemoryTransport::new()),
    )
}

#[test]
fn test_hybrid_transport_creation_with_leptos_ws_pro_primary() {
    let hybrid = leptos_primary_with_memory_fallback(LeptosWsProConfig::default());
    // the in-memory fallback counts as a connection
    assert!(hybrid.is_connected_now());
}

#[test]
fn test_hybrid_transport_fallback_mechanism() {
    let config = LeptosWsProConfig {
        url: "ws://invalid-url-that-does-not-exist:9999".to_string(),
        ..LeptosWsProConfig::default()
    };
    let mut hybrid = leptos_primary_with_memory_fallback(config);
    assert!(hybrid.connect().result.is_ok());
    assert!(hybrid.is_connected_now());
}

#[test]
fn test_hybrid_transport_message_routing() {
    let mut hybrid = leptos_primary_with_memory_fallback(LeptosWsProConfig::default());
    let serialized = hybrid_test_message("hybrid_test_001", "Test message for hybrid transport", "hybrid");
    assert!(hybrid.send(&serialized).is_ok());
    let receive_result = hybrid.receive();
    assert!(receive_result.is_ok());
    assert!(receive_result.unwrap().is_empty());
}

#[test]
fn test_hybrid_transport_connection_state_management() {
    let mut hybrid = leptos_primary_with_memory_fallback(LeptosWsProConfig::default());
    assert!(hybrid.connect().result.is_ok());
    assert!(hybrid.is_connected());
    assert!(hybrid.disconnect().is_ok());
    // the in-memory fallback stays connected
    assert!(hybrid.is_connected());
}

#[test]
fn test_hybrid_transport_error_handling() {
    let config = LeptosWsProConfig {
        url: "ws://invalid-url-that-does-not-exist:9999".to_string(),
        max_reconnect_attempts: 1,
        retry_delay_ms: 100,
        ..LeptosWsProConfig::default()
    };
    let mut hybrid = leptos_primary_with_memory_fallback(config);
    assert!(hybrid.connect().result.is_ok());
    assert!(hybrid.is_connected());
    let _ = hybrid.disconnect();
    let serialized = hybrid_test_message("error_test_001", "Error test message", "error_test");
    assert!(hybrid.send(&serialized).is_ok());
    let receive_result = hybrid.receive();
    assert!(receive_result.is_ok());
    assert!(receive_result.unwrap().is_empty());
}

#[test]
fn test_hybrid_transport_performance() {
    let mut hybrid = leptos_primary_with_memory_fallback(LeptosWsProConfig::default());
    let start_time = std::time::Instant::now();
    let message_count = 50;
    for i in 0..message_count {
        let serialized = hybrid_test_message(
            &format!("perf_test_{}", i),
            &format!("Performance test message {}", i),
            "performance",
        );
        let _ = hybrid.send(&serialized);
    }
    let elapsed = start_time.elapsed();
    let messages_per_second = message_count as f64 / elapsed.as_secs_f64().max(1e-9);
    assert!(messages_per_second > 100.0, "Performance too low: {:.2} msg/s", messages_per_second);
}

#[test]
fn test_hybrid_transport_with_compatibility_layer() {
    let mut hybrid = HybridTransport::with_fallback(
        HybridTransport::Compatibility(CompatibilityTransport::new(LeptosWsProConfig::default())),
        HybridTransport::InMemory(InMemoryTransport::new()),
    );
    let sync_data = br#"{"changes":[{"type":"insert","position":0,"content":"Hybrid compatibility test"}],"client_id":"hybrid_client","sequence":1}"#;
    assert!(hybrid.send(sync_data).is_ok());
    let receive_result = hybrid.receive();
    assert!(receive_result.is_ok());
    assert!(receive_result.unwrap().is_empty());
}

#[test]
fn test_hybrid_transport_transport_switching() {
    let config = LeptosWsProConfig {
        url: "ws://localhost:8080".to_string(),
        max_reconnect_attempts: 2,
        retry_delay_ms: 100,
        ..LeptosWsProConfig::default()
    };
    let mut hybrid = leptos_primary_with_memory_fallback(config);
    assert!(hybrid.connect().result.is_ok());
    assert!(hybrid.is_connected());
    let serialized = hybrid_test_message("primary_test", "Message through primary transport", "primary");
    assert!(hybrid.send(&serialized).is_ok());
    assert!(hybrid.disconnect().is_ok());
}

#[test]
fn test_hybrid_transport_integration_with_existing_system() {
    let mut hybrid = leptos_primary_with_memory_fallback(LeptosWsProConfig::default());
    assert!(hybrid.send(b"integration test data").is_ok());
    let receive_result = hybrid.receive();
    assert!(receive_result.is_ok());
    assert!(receive_result.unwrap().is_empty());
}

#[test]
fn test_transport_creation_and_initial_state() {
    let config = LeptosWsProConfig::default();
    let transport = LeptosWsProTransport::new(config.clone());
    assert!(!transport.is_connected());
    assert_eq!(transport.url(), config.url);
}

#[test]
fn test_connection_establishment() {
    let config = LeptosWsProConfig {
        url: "ws://invalid-url-that-does-not-exist:9999".to_string(),
        ..LeptosWsProConfig::default()
    };
    let mut transport = LeptosWsProTransport::new(config);
    assert!(transport.connect().result.is_err());
    assert!(!transport.is_connected());
}

#[test]
fn test_send_text_message() {
    let mut transport = LeptosWsProTransport::new(LeptosWsProConfig::default());
    let serialized = br#"{"id":1,"content":"Hello, WebSocket!","timestamp":1700000000}"#;
    let result = transport.send(serialized);
    assert!(matches!(result, Err(TransportError::NotConnected)));
}

#[test]
fn test_send_binary_message() {
    let mut transport = LeptosWsProTransport::new(LeptosWsProConfig::default());
    let serialized: Vec<u8> = vec![2, 0, 0, 0, 0, 0, 0, 0, 7, 0, 0, 0, 0, 0, 0, 0, b'c', b'h', 42];
    assert!(transport.send(&serialized).is_err());
}

#[test]
fn test_receive_messages() {
    let mut transport = LeptosWsProTransport::new(LeptosWsProConfig::default());
    let result = transport.receive();
    assert!(result.is_ok());
    assert!(result.unwrap().is_empty());
}

#[test]
fn test_reconnection_strategy() {
    let config = LeptosWsProConfig { max_reconnect_attempts: 2, ..LeptosWsProConfig::default() };
    let mut transport = LeptosWsProTransport::new(config);
    let report = transport.connect();
    let waited: u64 = report.waits_ms.iter().sum();
    assert!(waited >= 100);
}

#[test]
fn test_heartbeat_mechanism() {
    let config = LeptosWsProConfig { heartbeat_interval_ms: 100, ..LeptosWsProConfig::default() };
    let transport = LeptosWsProTransport::new(config.clone());
    assert_eq!(transport.heartbeat_interval_ms(), config.heartbeat_interval_ms);
}

#[test]
fn leptos_ws_pro_tests_test_error_handling() {
    let config = LeptosWsProConfig {
        url: "ws://invalid-url-that-does-not-exist:9999".to_string(),
        ..LeptosWsProConfig::default()
    };
    let mut transport = LeptosWsProTransport::new(config);
    assert!(transport.connect().result.is_err());
    assert!(!transport.is_connected());
}

#[test]
fn test_concurrent_operations() {
    let mut transport = LeptosWsProTransport::new(LeptosWsProConfig::default());
    assert!(transport.send(b"concurrent test message").is_err());
    assert!(transport.receive().is_ok());
}

#[test]
fn leptos_ws_pro_tests_test_sync_transport_trait_compliance() {
    let mut transport = LeptosWsProTransport::new(LeptosWsProConfig::default());
    assert!(!transport.is_connected());
    assert!(transport.send(b"trait compliance test").is_err());
    assert!(transport.receive().is_ok());
}

#[test]
fn test_message_protocol_compatibility() {
    let mut transport = LeptosWsProTransport::new(LeptosWsProConfig::default());
    let serialized = br#"{"type":"sync","peer_id":"test_peer","data":{"changes":["change1","change2"],"client_id":"client_123","sequence":42},"timestamp":"2024-01-01T00:00:00+00:00"}"#;
    assert!(transport.send(serialized).is_err());
}

#[test]
fn test_performance_characteristics() {
    let mut transport = LeptosWsProTransport::new(LeptosWsProConfig::default());
    let test_data = vec![0u8; 1024];
    let start_time = std::time::Instant::now();
    let result = transport.send(&test_data);
    let elapsed = start_time.elapsed();
    assert!(elapsed < std::time::Duration::from_millis(1));
    assert!(result.is_err());
}

#[test]
fn hybrid_send_reaches_the_fallback_when_the_primary_is_down() {
    let mut hybrid = HybridTransport::with_fallback(
        HybridTransport::with_websocket("ws://down".to_string()),
        HybridTransport::with_in_memory(),
    );
    hybrid.send_data(b"first").unwrap();
    hybrid.send_data(b"second").unwrap();
    // receiving through the pair asks the primary, which has nothing
    assert!(hybrid.receive_data().unwrap().is_empty());
    match &mut hybrid {
        HybridTransport::Fallback { primary, fallback } => {
            assert!(primary.receive_data().unwrap().is_empty());
            assert_eq!(fallback.receive_data().unwrap(), vec![b"first".to_vec(), b"second".to_vec()]);
        }
        _ => panic!("expected a fallback pair"),
    }
}

#[test]
fn hybrid_receive_turns_to_the_fallback_when_the_primary_refuses() {
    let mut hybrid = HybridTransport::with_fallback(
        HybridTransport::InMemory(InMemoryTransport::with_connection_status(false)),
        HybridTransport::with_in_memory(),
    );
    hybrid.send_data(b"m").unwrap();
    assert_eq!(hybrid.receive_data().unwrap(), vec![b"m".to_vec()]);
    assert!(hybrid.receive_data().unwrap().is_empty());
}

#[test]
fn compatibility_rebuilds_protocol_messages() {
    let ts = "2024-01-01T00:00:00+00:00";
    assert_eq!(
        CompatibilityTransport::outgoing_frame(br#"{"type":"heartbeat"}"#, ts),
        br#"{"timestamp":"2024-01-01T00:00:00+00:00","type":"heartbeat"}"#.to_vec()
    );
    assert_eq!(
        CompatibilityTransport::outgoing_frame(br#"{"type":"presence","peer_id":"p1","action":"join","x":1}"#, ts),
        br#"{"action":"join","peer_id":"p1","timestamp":"2024-01-01T00:00:00+00:00","type":"presence"}"#.to_vec()
    );
    assert_eq!(
        CompatibilityTransport::outgoing_frame(br#"{"type":"sync","peer_id":"p1","data":{"k":[1,2]},"extra":true}"#, ts),
        br#"{"data":{"k":[1,2]},"peer_id":"p1","timestamp":"2024-01-01T00:00:00+00:00","type":"sync"}"#.to_vec()
    );
    assert_eq!(CompatibilityTransport::outgoing_frame(br#"{"type":"other"}"#, ts), br#"{"type":"other"}"#.to_vec());
    assert_eq!(CompatibilityTransport::outgoing_frame(b"raw bytes", ts), b"raw bytes".to_vec());
}

#[test]
fn compatibility_send_queues_the_rebuilt_frame() {
    let mut transport = CompatibilityTransport::new(LeptosWsProConfig::default());
    assert!(transport.connect().result.is_ok());
    transport.send_message(br#"{"type":"heartbeat"}"#, "T").unwrap();
    transport.send(b"raw").unwrap();
    let frames = transport.receive_frames().unwrap();
    assert_eq!(frames, vec![br#"{"timestamp":"T","type":"heartbeat"}"#.to_vec(), b"raw".to_vec()]);
    transport.send(br#"{"type":"sync","peer_id":"p","data":1}"#).unwrap();
    let frames = transport.receive().unwrap();
    let text = String::from_utf8(frames[0].clone()).unwrap();
    assert!(text.starts_with(r#"{"data":1,"peer_id":"p","timestamp":""#));
    assert!(text.ends_with(r#"","type":"sync"}"#));
}

#[test]
fn compatibility_presence_and_heartbeat_frames() {
    let mut transport = CompatibilityTransport::new(LeptosWsProConfig::default());
    assert!(transport.send_presence("p1", "join", "T").is_err());
    assert!(transport.send_heartbeat("T").is_err());
    assert!(transport.connect().result.is_ok());
    transport.send_presence("p1", "join", "T").unwrap();
    transport.send_heartbeat("T").unwrap();
    assert_eq!(
        transport.receive_frames().unwrap(),
        vec![
            br#"{"action":"join","peer_id":"p1","timestamp":"T","type":"presence"}"#.to_vec(),
            br#"{"timestamp":"T","type":"heartbeat"}"#.to_vec(),
        ]
    );
}

#[test]
fn compatibility_send_sync_carries_the_payload() {
    let mut transport = CompatibilityTransport::new(LeptosWsProConfig::default());
    assert!(transport.send_sync("test_peer", br#"{"changes":["change1","change2"],"client_id":"test_client"}"#, "T").is_err());
    assert!(transport.connect().result.is_ok());
    transport.send_sync("p", br#"{"changes":["c1"]}"#, "T").unwrap();
    transport.send_sync("p", b"not json", "T").unwrap();
    assert_eq!(
        transport.receive_frames().unwrap(),
        vec![
            br#"{"data":{"changes":["c1"]},"peer_id":"p","timestamp":"T","type":"sync"}"#.to_vec(),
            br#"{"data":null,"peer_id":"p","timestamp":"T","type":"sync"}"#.to_vec(),
        ]
    );
}
